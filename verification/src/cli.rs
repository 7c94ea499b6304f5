//! Command-line options and the OpenVINO properties derived from them.

use vstd::prelude::*;
use crate::text::{chars_of, has_prefix, starts_with, str_is};

verus! {

/// Memory layout of the image input tensor.
#[derive(Clone, Copy, Debug, PartialEq, Eq, Structural)]
pub enum Layout {
    Nchw,
    Nhwc,
}

/// How a model output is reduced to one embedding vector.
#[derive(Clone, Copy, Debug, PartialEq, Eq, Structural)]
pub enum Pool {
    Auto,
    Cls,
    Mean,
    Spatial,
    Flatten,
}

/// Which compiler the NPU plugin should use.
#[derive(Clone, Copy, Debug, PartialEq, Eq, Structural)]
pub enum NpuCompilerType {
    Driver,
    Plugin,
    PreferPlugin,
}

/// The subcommand to run; paths are carried as text.
#[derive(Clone, Debug)]
pub enum Command {
    Devices,
    Info,
    Download,
    Compare { a: String, b: String },
    Embed { image: String, output: Option<String> },
    Batch { directory: String, output: Option<String> },
    Nearest { query: String, directory: String, top_k: usize },
    Classify { image: String, top_k: usize },
    Infer { image: String },
}

/// All command-line options. The three floating-point options (`mean`, `std`,
/// `scale`) are carried as the IEEE-754 bit patterns of their `f32` values.
#[derive(Clone, Debug)]
pub struct Args {
    pub ov_library: Option<String>,
    pub extra_file: Vec<String>,
    pub model: Option<String>,
    pub hf: Option<String>,
    pub revision: String,
    pub model_file: Option<String>,
    pub offline: bool,
    pub device: String,
    pub npu_platform: Option<String>,
    pub npu_compiler_type: Option<NpuCompilerType>,
    pub json: bool,
    pub preprocessor: Option<String>,
    pub size: Option<String>,
    pub layout: Layout,
    pub stretch: bool,
    pub mean: Option<Vec<u32>>,
    pub std: Option<Vec<u32>>,
    pub scale: Option<u32>,
    pub bgr: bool,
    pub output_name: Option<String>,
    pub pooling: Pool,
    pub skip_tokens: usize,
    pub no_normalize: bool,
    pub command: Command,
}

/// Why the NPU options were refused.
#[derive(Clone, Copy, Debug, PartialEq, Eq, Structural)]
pub enum NpuError {
    /// `--npu-platform` or `--npu-compiler-type` was given for a device that is not `NPU` or `NPU.<index>`.
    DeviceNotNpu,
    /// `--npu-platform` is empty or holds a character other than an ASCII digit.
    InvalidPlatform,
}

impl NpuCompilerType {
    /// The OpenVINO value of the `NPU_COMPILER_TYPE` property.
    pub open spec fn spec_property_value(self) -> Seq<char> {
        match self {
            NpuCompilerType::Driver => "DRIVER"@,
            NpuCompilerType::Plugin => "PLUGIN"@,
            NpuCompilerType::PreferPlugin => "PREFER_PLUGIN"@,
        }
    }

    pub fn property_value(self) -> (r: &'static str)
        ensures
            r@ == self.spec_property_value(),
    {
        match self {
            NpuCompilerType::Driver => "DRIVER",
            NpuCompilerType::Plugin => "PLUGIN",
            NpuCompilerType::PreferPlugin => "PREFER_PLUGIN",
        }
    }
}

/// A device string that selects the NPU: `NPU` itself or `NPU.<anything>`.
pub open spec fn is_npu_device(device: Seq<char>) -> bool {
    device == "NPU"@ || starts_with(device, "NPU."@)
}

/// A platform identifier: one or more ASCII digits.
pub open spec fn is_platform_id(p: Seq<char>) -> bool {
    p.len() > 0 && forall|i: int| 0 <= i < p.len() ==> '0' <= #[trigger] p[i] && p[i] <= '9'
}

/// The properties that the NPU options ask OpenVINO to set, as (key, value) texts,
/// or the reason they are refused.
pub open spec fn spec_npu_properties(
    device: Seq<char>,
    platform: Option<Seq<char>>,
    compiler: Option<NpuCompilerType>,
) -> Result<Seq<(Seq<char>, Seq<char>)>, NpuError> {
    if (platform is Some || compiler is Some) && !is_npu_device(device) {
        Err(NpuError::DeviceNotNpu)
    } else if platform is Some && !is_platform_id(platform->0) {
        Err(NpuError::InvalidPlatform)
    } else {
        let first: Seq<(Seq<char>, Seq<char>)> = match platform {
            Some(p) => seq![("NPU_PLATFORM"@, p)],
            None => seq![],
        };
        match compiler {
            Some(c) => Ok(first.push(("NPU_COMPILER_TYPE"@, c.spec_property_value()))),
            None => Ok(first),
        }
    }
}

/// The text view of a list of (key, value) properties.
pub open spec fn property_texts(v: Seq<(&'static str, String)>) -> Seq<(Seq<char>, Seq<char>)> {
    v.map_values(|p: (&'static str, String)| (p.0@, p.1@))
}

/// Without either NPU option no property is set, whatever the device: OpenVINO's
/// own defaults stay in force.
pub proof fn lemma_no_npu_options_no_properties(device: Seq<char>)
    ensures
        spec_npu_properties(device, None, None) == Ok::<Seq<(Seq<char>, Seq<char>)>, NpuError>(seq![]),
{
}

fn is_digits(p: &str) -> (r: bool)
    ensures
        r == is_platform_id(p@),
{
    let cs = chars_of(p);
    if cs.len() == 0 {
        return false;
    }
    let mut i: usize = 0;
    while i < cs.len()
        invariant
            cs@ == p@,
            i <= cs.len(),
            forall|j: int| 0 <= j < i ==> '0' <= #[trigger] cs@[j] && cs@[j] <= '9',
        decreases cs.len() - i,
    {
        let c = cs[i];
        if !('0' <= c && c <= '9') {
            return false;
        }
        i = i + 1;
    }
    true
}

impl Args {
    /// The options as they stand when only the subcommand is given: revision
    /// `main`, device `NPU`, NCHW layout, automatic pooling, no skipped tokens,
    /// and every other option absent or off.
    pub fn new(command: Command) -> (r: Args)
        ensures
            r.revision@ == "main"@,
            r.device@ == "NPU"@,
            r.layout == Layout::Nchw,
            r.pooling == Pool::Auto,
            r.skip_tokens == 0,
            r.extra_file@.len() == 0,
            r.ov_library is None && r.model is None && r.hf is None && r.model_file is None,
            r.npu_platform is None && r.npu_compiler_type is None && r.preprocessor is None,
            r.size is None && r.mean is None && r.std is None && r.scale is None,
            r.output_name is None,
            !r.offline && !r.json && !r.stretch && !r.bgr && !r.no_normalize,
            r.command == command,
    {
        Args {
            ov_library: None,
            extra_file: Vec::new(),
            model: None,
            hf: None,
            revision: "main".to_string(),
            model_file: None,
            offline: false,
            device: "NPU".to_string(),
            npu_platform: None,
            npu_compiler_type: None,
            json: false,
            preprocessor: None,
            size: None,
            layout: Layout::Nchw,
            stretch: false,
            mean: None,
            std: None,
            scale: None,
            bgr: false,
            output_name: None,
            pooling: Pool::Auto,
            skip_tokens: 0,
            no_normalize: false,
            command: command,
        }
    }

    /// The NPU compiler properties that the options request. Both NPU options
    /// demand an NPU device; the platform must be numeric. With neither option
    /// the list is empty, so OpenVINO's own defaults stay in force.
    pub fn npu_properties(&self) -> (r: Result<Vec<(&'static str, String)>, NpuError>)
        ensures
            match r {
                Ok(v) => spec_npu_properties(
                    self.device@,
                    match self.npu_platform { Some(p) => Some(p@), None => None },
                    self.npu_compiler_type,
                ) == Ok::<Seq<(Seq<char>, Seq<char>)>, NpuError>(property_texts(v@)),
                Err(e) => spec_npu_properties(
                    self.device@,
                    match self.npu_platform { Some(p) => Some(p@), None => None },
                    self.npu_compiler_type,
                ) == Err::<Seq<(Seq<char>, Seq<char>)>, NpuError>(e),
            },
    {
        let mut properties: Vec<(&'static str, String)> = Vec::new();
        if self.npu_platform.is_some() || self.npu_compiler_type.is_some() {
            let device = chars_of(self.device.as_str());
            let npu = str_is(self.device.as_str(), "NPU") || has_prefix(&device, "NPU.");
            if !npu {
                return Err(NpuError::DeviceNotNpu);
            }
        }
        if let Some(platform) = &self.npu_platform {
            if !is_digits(platform.as_str()) {
                return Err(NpuError::InvalidPlatform);
            }
            properties.push(("NPU_PLATFORM", platform.clone()));
        }
        if let Some(compiler) = self.npu_compiler_type {
            let value = compiler.property_value();
            properties.push(("NPU_COMPILER_TYPE", value.to_string()));
        }
        assert(property_texts(properties@) =~= spec_npu_properties(
            self.device@,
            match self.npu_platform { Some(p) => Some(p@), None => None },
            self.npu_compiler_type,
        )->Ok_0);
        Ok(properties)
    }
}

} // verus!
