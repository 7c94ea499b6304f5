use dino_cli::backend::{check_input_count, check_input_type, check_output, ModelError};
use dino_cli::backend::{
    default_output_name, input_dims, input_geometry, parse_size, select_output, weights_path,
    GeometryError, IntErrorKind, SelectError, SizeError,
};
use dino_cli::cli::Layout;

#[test]
fn size_is_width_then_height() {
    assert_eq!(parse_size("224x160"), Ok((224, 160)));
    assert_eq!(parse_size("+16384x1"), Ok((16384, 1)));
    assert_eq!(parse_size("007x08"), Ok((7, 8)));
}

#[test]
fn size_errors() {
    assert_eq!(parse_size("224"), Err(SizeError::MissingSeparator));
    assert_eq!(parse_size("x224"), Err(SizeError::Width(IntErrorKind::Empty)));
    assert_eq!(parse_size("224x"), Err(SizeError::Height(IntErrorKind::Empty)));
    assert_eq!(parse_size("22a4x224"), Err(SizeError::Width(IntErrorKind::InvalidDigit)));
    assert_eq!(parse_size("224x224x3"), Err(SizeError::Height(IntErrorKind::InvalidDigit)));
    assert_eq!(parse_size("-x5"), Err(SizeError::Width(IntErrorKind::InvalidDigit)));
    assert_eq!(parse_size(" 224x224"), Err(SizeError::Width(IntErrorKind::InvalidDigit)));
    assert_eq!(
        parse_size("9223372036854775808x1"),
        Err(SizeError::Width(IntErrorKind::PosOverflow))
    );
    assert_eq!(
        parse_size("1x-9223372036854775809"),
        Err(SizeError::Height(IntErrorKind::NegOverflow))
    );
    assert_eq!(parse_size("0x224"), Err(SizeError::OutOfRange));
    assert_eq!(parse_size("16385x224"), Err(SizeError::OutOfRange));
    assert_eq!(parse_size("-5x224"), Err(SizeError::OutOfRange));
    assert_eq!(parse_size("9223372036854775807x1"), Err(SizeError::OutOfRange));
}

#[test]
fn size_parse_agrees_with_std() {
    for s in ["12", "-0", "+7", "99999999999999999999", "-9223372036854775808", "1_0", "", "+", "-"] {
        let text = format!("{s}x1");
        let ours = parse_size(&text);
        match s.parse::<i64>() {
            Ok(v) if v > 0 && v <= 16384 => assert_eq!(ours, Ok((v, 1))),
            Ok(_) => assert_eq!(ours, Err(SizeError::OutOfRange)),
            Err(_) => assert!(matches!(ours, Err(SizeError::Width(_)))),
        }
    }
}

#[test]
fn static_dims_follow_layout() {
    assert_eq!(input_dims(Layout::Nchw, 224, 160), vec![1, 3, 160, 224]);
    assert_eq!(input_dims(Layout::Nhwc, 224, 160), vec![1, 160, 224, 3]);
}

#[test]
fn geometry_of_input() {
    assert_eq!(input_geometry(&vec![1, 3, 160, 224], Layout::Nchw), Ok((224, 160)));
    assert_eq!(input_geometry(&vec![1, 160, 224, 3], Layout::Nhwc), Ok((224, 160)));
    assert_eq!(input_geometry(&vec![1, 3, 224], Layout::Nchw), Err(GeometryError::NotRank4Batch1));
    assert_eq!(input_geometry(&vec![2, 3, 224, 224], Layout::Nchw), Err(GeometryError::NotRank4Batch1));
    assert_eq!(input_geometry(&vec![1, 160, 224, 3], Layout::Nchw), Err(GeometryError::NotThreeChannels));
    assert_eq!(
        input_geometry(&vec![1, 3, 5_000_000_000, 224], Layout::Nchw),
        Err(GeometryError::DimensionOutOfRange)
    );
    assert_eq!(input_geometry(&vec![1, 3, 224, -1], Layout::Nchw), Err(GeometryError::DimensionOutOfRange));
}

#[test]
fn output_selection() {
    let names = vec!["logits".to_string(), "pooled".to_string(), "logits".to_string()];
    assert_eq!(select_output(&names, &Some("logits".to_string())), Ok(0));
    assert_eq!(select_output(&names, &Some("pooled".to_string())), Ok(1));
    assert_eq!(select_output(&names, &Some("other".to_string())), Err(SelectError::UnknownOutput));
    assert_eq!(select_output(&names, &None), Err(SelectError::MultipleOutputs));
    assert_eq!(select_output(&vec!["only".to_string()], &None), Ok(0));
    assert_eq!(select_output(&vec![], &None), Err(SelectError::MultipleOutputs));
}

#[test]
fn unnamed_outputs() {
    assert_eq!(default_output_name(0), "output_0");
    assert_eq!(default_output_name(7), "output_7");
    assert_eq!(default_output_name(1203), "output_1203");
}

#[test]
fn weights_beside_ir_model() {
    assert_eq!(weights_path("model/openvino_model.xml"), "model/openvino_model.bin");
    assert_eq!(weights_path("a.b.xml"), "a.b.bin");
    assert_eq!(weights_path("model.onnx"), "");
    assert_eq!(weights_path("model.XML"), "");
    assert_eq!(weights_path("dir.xml/model"), "");
    assert_eq!(weights_path(".xml"), "");
}

#[test]
fn model_interface_checks() {
    assert_eq!(check_input_count(1), Ok(()));
    assert_eq!(check_input_count(2), Err(ModelError::NotOneInput));
    assert_eq!(check_input_count(0), Err(ModelError::NotOneInput));
    assert_eq!(check_input_type(true), Ok(()));
    assert_eq!(check_input_type(false), Err(ModelError::InputNotF32));
    assert_eq!(check_output(true, true), Ok(()));
    assert_eq!(check_output(false, true), Err(ModelError::OutputNotF32));
    assert_eq!(check_output(false, false), Err(ModelError::OutputNotF32));
    assert_eq!(check_output(true, false), Err(ModelError::NonfiniteOutput));
}
