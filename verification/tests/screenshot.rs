use base64::Engine;
use gpui_driver::cli::{screenshot_png, CliError};
use gpui_driver::handlers::{capture_step, fallback_outcome, screenshot_from_rgba, CaptureStep};
use gpui_driver::protocol::ErrorKind;

#[test]
fn captured_pixels_become_a_png_that_decodes_to_them() {
    let rgba: Vec<u8> = vec![255, 0, 0, 255, 0, 255, 0, 128];
    let payload = screenshot_from_rgba(rgba.clone(), 2, 1, "renderer").unwrap();
    assert_eq!(payload.format, "png");
    assert_eq!((payload.width, payload.height), (2, 1));
    assert_eq!(payload.method, "renderer");
    let result: serde_json::Value =
        serde_json::from_str(&format!(r#"{{"data_base64":"{}"}}"#, payload.data_base64)).unwrap();
    let png = screenshot_png(&result).unwrap();
    assert_eq!(&png[..8], &[137, 80, 78, 71, 13, 10, 26, 10]);
    let decoded = image::load_from_memory(&png).unwrap().to_rgba8();
    assert_eq!((decoded.width(), decoded.height()), (2, 1));
    assert_eq!(decoded.into_raw(), rgba);
}

#[test]
fn an_empty_capture_cannot_be_encoded() {
    match screenshot_from_rgba(Vec::new(), 0, 3, "renderer") {
        Err((kind, message)) => {
            assert_eq!(kind, ErrorKind::Internal);
            assert!(!message.is_empty());
        }
        Ok(_) => panic!("expected an encoding error"),
    }
}

#[test]
fn renderer_success_is_used() {
    assert!(matches!(capture_step(false, Ok(())), CaptureStep::Renderer));
}

#[test]
fn forced_fallback_skips_the_renderer() {
    match capture_step(true, Ok(())) {
        CaptureStep::Fallback(why) => {
            assert_eq!(why, "renderer capture skipped (GPUI_DRIVER_FORCE_PRINTWINDOW=1)")
        }
        _ => panic!("expected the fallback"),
    }
}

#[test]
fn missing_readback_falls_back() {
    match capture_step(false, Err("render_to_image: not implemented for this platform".into())) {
        CaptureStep::Fallback(why) => assert_eq!(why, "render_to_image: not implemented for this platform"),
        _ => panic!("expected the fallback"),
    }
}

#[test]
fn broken_readback_is_an_internal_error() {
    match capture_step(false, Err("device lost".into())) {
        CaptureStep::Fail(kind, message) => {
            assert_eq!(kind, ErrorKind::Internal);
            assert_eq!(message, "screenshot failed: device lost");
        }
        _ => panic!("expected a failure"),
    }
}

#[test]
fn fallback_outcomes() {
    assert_eq!(fallback_outcome("not implemented", Ok(())).unwrap(), "printwindow");
    let (kind, message) = fallback_outcome("not implemented", Err("PrintWindow returned FALSE".into())).unwrap_err();
    assert_eq!(kind, ErrorKind::Unsupported);
    assert_eq!(message, "screenshot failed: not implemented; PrintWindow fallback: PrintWindow returned FALSE");
}

#[test]
fn bad_base64_reports_the_decoder_message() {
    let expected = base64::engine::general_purpose::STANDARD.decode("!!!!").unwrap_err().to_string();
    let result: serde_json::Value = serde_json::from_str(r#"{"data_base64":"!!!!"}"#).unwrap();
    match screenshot_png(&result) {
        Err(CliError::Protocol(m)) => assert_eq!(m, format!("invalid base64 image data: {expected}")),
        _ => panic!("expected a protocol error"),
    }
}

#[test]
fn bgra_pixels_become_opaque_rgba() {
    let rgba = gpui_driver::picture::bgra_to_opaque_rgba(vec![1, 2, 3, 4, 10, 20, 30, 0, 7, 8]);
    assert_eq!(rgba, vec![3, 2, 1, 255, 30, 20, 10, 255, 7, 8]);
    assert!(gpui_driver::picture::bgra_to_opaque_rgba(Vec::new()).is_empty());
}
