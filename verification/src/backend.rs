//! Checks and choices made while preparing the model: the `--size` option,
//! the image input's geometry, the weights file and the output to read.

use vstd::prelude::*;
use crate::cli::Layout;
use crate::images::{extension, file_name, texts};
use crate::text::{chars_of, chars_equal, decimal, push_decimal, push_char, string_from_chars};

verus! {

/// Why a decimal integer could not be read (the kinds of `std::num::ParseIntError`).
#[derive(Clone, Copy, Debug, PartialEq, Eq, Structural)]
pub enum IntErrorKind {
    Empty,
    InvalidDigit,
    PosOverflow,
    NegOverflow,
}

/// Why `--size WIDTHxHEIGHT` was refused.
#[derive(Clone, Copy, Debug, PartialEq, Eq, Structural)]
pub enum SizeError {
    /// The text holds no `x`.
    MissingSeparator,
    /// The text before the first `x` is no `i64`.
    Width(IntErrorKind),
    /// The text after the first `x` is no `i64`.
    Height(IntErrorKind),
    /// A side is not within 1..=16384.
    OutOfRange,
}

/// Why the model's image input is unusable.
#[derive(Clone, Copy, Debug, PartialEq, Eq, Structural)]
pub enum GeometryError {
    /// The input is not of rank 4 with batch 1.
    NotRank4Batch1,
    /// The channel dimension (under the chosen layout) is not 3.
    NotThreeChannels,
    /// Width or height does not fit in `u32`.
    DimensionOutOfRange,
}

/// Why no output could be selected.
#[derive(Clone, Copy, Debug, PartialEq, Eq, Structural)]
pub enum SelectError {
    /// No output carries the requested name.
    UnknownOutput,
    /// No name was requested and the model does not have exactly one output.
    MultipleOutputs,
}

/// Why a model or one of its outputs cannot be used.
#[derive(Clone, Copy, Debug, PartialEq, Eq, Structural)]
pub enum ModelError {
    /// The model does not have exactly one input.
    NotOneInput,
    /// The image input is not `f32`.
    InputNotF32,
    /// An output is not `f32`.
    OutputNotF32,
    /// An output holds a value that is not finite.
    NonfiniteOutput,
}

/// The model must take exactly one input (the image).
pub fn check_input_count(inputs: usize) -> (r: Result<(), ModelError>)
    ensures
        r == (if inputs == 1 { Ok(()) } else { Err(ModelError::NotOneInput) }),
{
    if inputs == 1 {
        Ok(())
    } else {
        Err(ModelError::NotOneInput)
    }
}

/// The image input must be an `f32` tensor.
pub fn check_input_type(is_f32: bool) -> (r: Result<(), ModelError>)
    ensures
        r == (if is_f32 { Ok(()) } else { Err(ModelError::InputNotF32) }),
{
    if is_f32 {
        Ok(())
    } else {
        Err(ModelError::InputNotF32)
    }
}

/// Every output read must be an `f32` tensor of finite values.
pub fn check_output(is_f32: bool, all_finite: bool) -> (r: Result<(), ModelError>)
    ensures
        r == (if !is_f32 {
            Err(ModelError::OutputNotF32)
        } else if !all_finite {
            Err(ModelError::NonfiniteOutput)
        } else {
            Ok(())
        }),
{
    if !is_f32 {
        Err(ModelError::OutputNotF32)
    } else if !all_finite {
        Err(ModelError::NonfiniteOutput)
    } else {
        Ok(())
    }
}

/// Reads the digits `ds` after an accumulated value `acc`, the way `i64::from_str`
/// does: every character must be an ASCII digit, and the value must stay in `i64`.
pub open spec fn parse_digits(ds: Seq<char>, acc: int, positive: bool) -> Result<int, IntErrorKind>
    decreases ds.len(),
{
    if ds.len() == 0 {
        Ok(acc)
    } else if !('0' <= ds[0] && ds[0] <= '9') {
        Err(IntErrorKind::InvalidDigit)
    } else {
        let d = ds[0] as int - '0' as int;
        let next = if positive { acc * 10 + d } else { acc * 10 - d };
        if next > i64::MAX {
            Err(IntErrorKind::PosOverflow)
        } else if next < i64::MIN {
            Err(IntErrorKind::NegOverflow)
        } else {
            parse_digits(ds.drop_first(), next, positive)
        }
    }
}

/// `i64::from_str` on a text: an optional sign followed by decimal digits.
pub open spec fn parse_i64(s: Seq<char>) -> Result<int, IntErrorKind> {
    if s.len() == 0 {
        Err(IntErrorKind::Empty)
    } else if (s[0] == '+' || s[0] == '-') && s.len() == 1 {
        Err(IntErrorKind::InvalidDigit)
    } else if s[0] == '+' {
        parse_digits(s.drop_first(), 0, true)
    } else if s[0] == '-' {
        parse_digits(s.drop_first(), 0, false)
    } else {
        parse_digits(s, 0, true)
    }
}

/// Reads a decimal `i64` from characters, as `str::parse::<i64>` does.
pub fn parse_i64_chars(s: &Vec<char>) -> (r: Result<i64, IntErrorKind>)
    ensures
        match r {
            Ok(v) => parse_i64(s@) == Ok::<int, IntErrorKind>(v as int),
            Err(e) => parse_i64(s@) == Err::<int, IntErrorKind>(e),
        },
{
    if s.len() == 0 {
        return Err(IntErrorKind::Empty);
    }
    if (s[0] == '+' || s[0] == '-') && s.len() == 1 {
        return Err(IntErrorKind::InvalidDigit);
    }
    let positive = s[0] != '-';
    let start: usize = if s[0] == '+' || s[0] == '-' { 1 } else { 0 };
    let ghost ds = s@.skip(start as int);
    assert(start == 1 ==> ds =~= s@.drop_first());
    assert(start == 0 ==> ds =~= s@);
    assert(parse_i64(s@) == parse_digits(ds, 0, positive));
    let mut acc: i128 = 0;
    let mut i: usize = start;
    while i < s.len()
        invariant
            start <= i <= s.len(),
            ds == s@.skip(start as int),
            parse_i64(s@) == parse_digits(ds, 0, positive),
            i64::MIN <= acc <= i64::MAX,
            parse_digits(ds, 0, positive) == parse_digits(s@.skip(i as int), acc as int, positive),
        decreases s.len() - i,
    {
        let c = s[i];
        assert(s@.skip(i as int)[0] == c);
        if !('0' <= c && c <= '9') {
            return Err(IntErrorKind::InvalidDigit);
        }
        let d: i128 = (c as u32 - '0' as u32) as i128;
        let next: i128 = if positive { acc * 10 + d } else { acc * 10 - d };
        if next > i64::MAX as i128 {
            return Err(IntErrorKind::PosOverflow);
        }
        if next < i64::MIN as i128 {
            return Err(IntErrorKind::NegOverflow);
        }
        assert(s@.skip(i as int).drop_first() =~= s@.skip(i + 1));
        acc = next;
        i = i + 1;
    }
    assert(s@.skip(s.len() as int) =~= Seq::<char>::empty());
    Ok(acc as i64)
}

/// The index of the first `c` in `s`.
pub open spec fn first_index_of(s: Seq<char>, c: char) -> Option<int> {
    if exists|i: int| 0 <= i < s.len() && s[i] == c {
        Some(choose|i: int| 0 <= i < s.len() && s[i] == c && forall|j: int| 0 <= j < i ==> s[j] != c)
    } else {
        None
    }
}

/// The largest width or height accepted for an image side.
pub open spec fn side_in_range(v: int) -> bool {
    0 < v <= 16384
}

/// `--size WIDTHxHEIGHT`: split at the first `x`, read both sides as `i64`,
/// and accept sides within 1..=16384.
pub open spec fn spec_parse_size(s: Seq<char>) -> Result<(int, int), SizeError> {
    match first_index_of(s, 'x') {
        None => Err(SizeError::MissingSeparator),
        Some(i) => match parse_i64(s.take(i)) {
            Err(e) => Err(SizeError::Width(e)),
            Ok(w) => match parse_i64(s.skip(i + 1)) {
                Err(e) => Err(SizeError::Height(e)),
                Ok(h) => if side_in_range(w) && side_in_range(h) {
                    Ok((w, h))
                } else {
                    Err(SizeError::OutOfRange)
                },
            },
        },
    }
}

/// Reads `--size WIDTHxHEIGHT` into (width, height).
pub fn parse_size(size: &str) -> (r: Result<(i64, i64), SizeError>)
    ensures
        match r {
            Ok((w, h)) => spec_parse_size(size@) == Ok::<(int, int), SizeError>((w as int, h as int)),
            Err(e) => spec_parse_size(size@) == Err::<(int, int), SizeError>(e),
        },
{
    let s = chars_of(size);
    let mut i: usize = 0;
    while i < s.len() && s[i] != 'x'
        invariant
            i <= s.len(),
            s@ == size@,
            forall|j: int| 0 <= j < i ==> s@[j] != 'x',
        decreases s.len() - i,
    {
        i = i + 1;
    }
    if i == s.len() {
        assert(!exists|j: int| 0 <= j < s@.len() && s@[j] == 'x');
        return Err(SizeError::MissingSeparator);
    }
    assert(first_index_of(s@, 'x') == Some(i as int)) by {
        let k = choose|k: int| 0 <= k < s@.len() && s@[k] == 'x' && forall|j: int| 0 <= j < k ==> s@[j] != 'x';
        assert(s@[i as int] == 'x');
        if k < i {
        } else if k > i {
        }
    }
    let mut left: Vec<char> = Vec::new();
    let mut j: usize = 0;
    while j < i
        invariant
            j <= i < s.len(),
            left@ == s@.take(j as int),
        decreases i - j,
    {
        left.push(s[j]);
        assert(s@.take(j + 1) =~= s@.take(j as int).push(s@[j as int]));
        j = j + 1;
    }
    let mut right: Vec<char> = Vec::new();
    let mut k: usize = i + 1;
    while k < s.len()
        invariant
            i < k <= s.len(),
            right@ == s@.subrange(i + 1, k as int),
        decreases s.len() - k,
    {
        right.push(s[k]);
        assert(s@.subrange(i + 1, k + 1) =~= s@.subrange(i + 1, k as int).push(s@[k as int]));
        k = k + 1;
    }
    assert(right@ =~= s@.skip(i + 1));
    let w = match parse_i64_chars(&left) {
        Ok(w) => w,
        Err(e) => return Err(SizeError::Width(e)),
    };
    let h = match parse_i64_chars(&right) {
        Ok(h) => h,
        Err(e) => return Err(SizeError::Height(e)),
    };
    if w > 0 && h > 0 && w <= 16384 && h <= 16384 {
        Ok((w, h))
    } else {
        Err(SizeError::OutOfRange)
    }
}

/// The static input shape that `--size` imposes: batch 1, three channels.
pub open spec fn spec_input_dims(layout: Layout, w: int, h: int) -> Seq<i64> {
    match layout {
        Layout::Nchw => seq![1i64, 3i64, h as i64, w as i64],
        Layout::Nhwc => seq![1i64, h as i64, w as i64, 3i64],
    }
}

/// The static input shape for width `w` and height `h` under `layout`.
pub fn input_dims(layout: Layout, w: i64, h: i64) -> (r: Vec<i64>)
    ensures
        r@ == spec_input_dims(layout, w as int, h as int),
{
    match layout {
        Layout::Nchw => vec![1, 3, h, w],
        Layout::Nhwc => vec![1, h, w, 3],
    }
}

/// (channels, height, width) of a rank-4 input under `layout`.
pub open spec fn layout_dims(shape: Seq<i64>, layout: Layout) -> (i64, i64, i64) {
    match layout {
        Layout::Nchw => (shape[1], shape[2], shape[3]),
        Layout::Nhwc => (shape[3], shape[1], shape[2]),
    }
}

/// The image size (width, height) of the model's input, or why it is unusable.
pub open spec fn spec_input_geometry(shape: Seq<i64>, layout: Layout) -> Result<(u32, u32), GeometryError> {
    if !(shape.len() == 4 && shape[0] == 1) {
        Err(GeometryError::NotRank4Batch1)
    } else {
        let (ch, h, w) = layout_dims(shape, layout);
        if ch != 3 {
            Err(GeometryError::NotThreeChannels)
        } else if !(0 <= w <= u32::MAX && 0 <= h <= u32::MAX) {
            Err(GeometryError::DimensionOutOfRange)
        } else {
            Ok((w as u32, h as u32))
        }
    }
}

/// Checks the model's input shape (rank 4, batch 1, three channels) and
/// returns its (width, height).
pub fn input_geometry(shape: &Vec<i64>, layout: Layout) -> (r: Result<(u32, u32), GeometryError>)
    ensures
        r == spec_input_geometry(shape@, layout),
{
    if !(shape.len() == 4 && shape[0] == 1) {
        return Err(GeometryError::NotRank4Batch1);
    }
    let (ch, h, w) = match layout {
        Layout::Nchw => (shape[1], shape[2], shape[3]),
        Layout::Nhwc => (shape[3], shape[1], shape[2]),
    };
    if ch != 3 {
        return Err(GeometryError::NotThreeChannels);
    }
    if !(0 <= w && w <= u32::MAX as i64 && 0 <= h && h <= u32::MAX as i64) {
        return Err(GeometryError::DimensionOutOfRange);
    }
    Ok((w as u32, h as u32))
}

/// The index of the output to read: the first one named `requested`, or the
/// only output when no name is requested.
pub open spec fn spec_select_output(names: Seq<Seq<char>>, requested: Option<Seq<char>>) -> Result<
    int,
    SelectError,
> {
    match requested {
        Some(n) => if exists|i: int| 0 <= i < names.len() && names[i] == n {
            Ok(
                choose|i: int|
                    0 <= i < names.len() && names[i] == n && forall|j: int| 0 <= j < i ==> names[j] != n,
            )
        } else {
            Err(SelectError::UnknownOutput)
        },
        None => if names.len() == 1 {
            Ok(0)
        } else {
            Err(SelectError::MultipleOutputs)
        },
    }
}

/// Picks the output to embed or classify from the model's output names.
pub fn select_output(names: &Vec<String>, requested: &Option<String>) -> (r: Result<usize, SelectError>)
    ensures
        match r {
            Ok(i) => spec_select_output(
                texts(names@),
                match requested { Some(n) => Some(n@), None => None },
            ) == Ok::<int, SelectError>(i as int),
            Err(e) => spec_select_output(
                texts(names@),
                match requested { Some(n) => Some(n@), None => None },
            ) == Err::<int, SelectError>(e),
        },
{
    let ghost views = texts(names@);
    match requested {
        Some(name) => {
            let target = chars_of(name.as_str());
            let mut i: usize = 0;
            while i < names.len()
                invariant
                    i <= names.len(),
                    views == texts(names@),
                    target@ == name@,
                    (match requested { Some(n) => Some(n@), None => None::<Seq<char>> }) == Some(name@),
                    forall|j: int| 0 <= j < i ==> views[j] != name@,
                decreases names.len() - i,
            {
                let cand = chars_of(names[i].as_str());
                if chars_equal(&cand, &target) {
                    assert(views[i as int] == name@);
                    let ghost k = choose|k: int|
                        0 <= k < views.len() && views[k] == name@ && forall|j: int| 0 <= j < k ==> views[j] != name@;
                    assert(k == i) by {
                        if k < i {
                        } else if k > i {
                        }
                    }
                    assert(exists|j: int| 0 <= j < views.len() && views[j] == name@);
                    assert(spec_select_output(views, Some(name@)) == Ok::<int, SelectError>(i as int));
                    return Ok(i);
                }
                i = i + 1;
            }
            Err(SelectError::UnknownOutput)
        },
        None => {
            if names.len() == 1 {
                Ok(0)
            } else {
                Err(SelectError::MultipleOutputs)
            }
        },
    }
}

/// The name given to output `i` when the model leaves it unnamed: `output_<i>`.
pub open spec fn spec_default_output_name(i: nat) -> Seq<char> {
    "output_"@ + decimal(i)
}

/// `output_<i>`, the name used for an unnamed output.
pub fn default_output_name(i: usize) -> (r: String)
    ensures
        r@ == spec_default_output_name(i as nat),
{
    let prefix = chars_of("output_");
    let mut s = string_from_chars(&prefix);
    push_decimal(&mut s, i);
    s
}

/// The weights file read beside a model: for an `.xml` IR file the same path with
/// extension `bin`; for any other model none (the empty path).
pub open spec fn spec_weights_path(model: Seq<char>) -> Seq<char> {
    if extension(file_name(model)) == Some("xml"@) {
        model.take(model.len() - 3) + "bin"@
    } else {
        seq![]
    }
}

/// The weights path handed to OpenVINO along with the model path.
pub fn weights_path(model: &str) -> (r: String)
    ensures
        r@ == spec_weights_path(model@),
{
    let m = chars_of(model);
    let is_xml = crate::images::has_extension(model, "xml");
    if is_xml {
        proof {
            reveal_strlit("xml");
            crate::images::lemma_extension_len(model@, "xml"@);
        }
        let mut out: Vec<char> = Vec::new();
        let mut i: usize = 0;
        while i < m.len() - 3
            invariant
                m@ == model@,
                m.len() >= 3,
                i <= m.len() - 3,
                out@ == m@.take(i as int),
            decreases m.len() - i,
        {
            out.push(m[i]);
            assert(m@.take(i + 1) =~= m@.take(i as int).push(m@[i as int]));
            i = i + 1;
        }
        assert(out@ =~= m@.take(m.len() - 3));
        let mut s = string_from_chars(&out);
        push_char(&mut s, 'b');
        push_char(&mut s, 'i');
        push_char(&mut s, 'n');
        proof {
            reveal_strlit("bin");
        }
        assert(s@ =~= model@.take(model@.len() - 3) + "bin"@);
        s
    } else {
        String::new()
    }
}

} // verus!
