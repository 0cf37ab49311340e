use sync_image::image_files::{select_latest_image, DirEntryInfo};
use sync_image::mcp::{
    no_uploads_message, parse_error_message, plan_reply, LatestImage, ReplyPlan, METHOD_NOT_FOUND,
};

#[test]
fn loads_latest_image_data() {
    let entries = vec![
        DirEntryInfo { file_name: "20260623_010203_004.png".to_string(), is_file: true },
        DirEntryInfo { file_name: "20260623_010203_104.png".to_string(), is_file: true },
    ];
    let selected = select_latest_image("/root/alice", &entries).expect("latest");
    let latest = LatestImage::from_bytes(selected, b"png-bytes");

    assert_eq!(latest.selected.file_name, "20260623_010203_104.png");
    assert_eq!(latest.data_base64, "cG5nLWJ5dGVz");
    assert_eq!(latest.upload_time_text(), "2026-06-23T01:02:03.104+00:00");
    assert_eq!(
        latest.summary_text(),
        "selected_file=20260623_010203_104.png\nupload_time=2026-06-23T01:02:03.104+00:00"
    );
}

#[test]
fn base64_pads_short_groups() {
    let entries = vec![DirEntryInfo { file_name: "20260101_000000_000.png".to_string(), is_file: true }];
    let selected = select_latest_image("/r", &entries).expect("latest");
    assert_eq!(LatestImage::from_bytes(selected.clone(), b"").data_base64, "");
    assert_eq!(LatestImage::from_bytes(selected.clone(), b"f").data_base64, "Zg==");
    assert_eq!(LatestImage::from_bytes(selected.clone(), b"fo").data_base64, "Zm8=");
    assert_eq!(LatestImage::from_bytes(selected.clone(), &[0xfb, 0xff]).data_base64, "+/8=");
    assert_eq!(LatestImage::from_bytes(selected.clone(), b"foobar").data_base64, "Zm9vYmFy");
    assert_eq!(selected.upload_time.year(), 2026);
    assert_eq!(LatestImage::from_bytes(selected, b"").upload_time_text(), "2026-01-01T00:00:00+00:00");
}

#[test]
fn tool_call_requests_are_answered() {
    assert_eq!(plan_reply(true, "tools/call"), ReplyPlan::ToolsCall);
    assert_eq!(plan_reply(true, "initialize"), ReplyPlan::Initialize);
    assert_eq!(plan_reply(true, "tools/list"), ReplyPlan::ToolsList);
    assert_eq!(plan_reply(false, "tools/call"), ReplyPlan::NoReply);
    assert_eq!(plan_reply(true, "notifications/initialized"), ReplyPlan::NoReply);
}

#[test]
fn unknown_methods_get_method_not_found() {
    for has_id in [true, false] {
        match plan_reply(has_id, "resources/list") {
            ReplyPlan::Error { code, message } => {
                assert_eq!(code, METHOD_NOT_FOUND);
                assert_eq!(code, -32601);
                assert_eq!(message, "unsupported method 'resources/list'");
            }
            other => panic!("unexpected {other:?}"),
        }
    }
}

#[test]
fn error_texts() {
    assert_eq!(
        no_uploads_message("alice"),
        "no timestamped PNG uploads found for user 'alice'"
    );
    assert_eq!(parse_error_message("EOF"), "failed to parse JSON-RPC request: EOF");
}
