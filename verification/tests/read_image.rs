use moltis_core::error::Error;
use moltis_core::file_name::Separators;
use moltis_core::read_image::{complete, make_reply, make_request, mime_from_extension, ReadImageTool};
use moltis_core::sandbox::{ExecResult, MAX_FILE_SIZE, MAX_SANDBOX_OUTPUT_BYTES};
use moltis_core::session_read::{
    accept_host_bytes, check_host_metadata, FileInfo, ReadAction, ReadEvent, SessionRead,
};
use base64::Engine;
use serde_json::Value;
use std::sync::Arc;

struct Router {
    name: &'static str,
}

fn object(members: &[(&str, Value)]) -> Value {
    let mut map = serde_json::Map::new();
    for (key, value) in members {
        map.insert(key.to_string(), value.clone());
    }
    Value::Object(map)
}

fn plain_tool() -> ReadImageTool<Router> {
    ReadImageTool::new()
}

fn sandboxed_tool() -> ReadImageTool<Router> {
    ReadImageTool::new().with_sandbox_router(Arc::new(Router { name: "router" }))
}

fn png() -> Vec<u8> {
    vec![
        0x89, 0x50, 0x4E, 0x47, 0x0D, 0x0A, 0x1A, 0x0A,
        0x00, 0x00, 0x00, 0x0D, 0x49, 0x48, 0x44, 0x52,
        0x00, 0x00, 0x00, 0x01, 0x00, 0x00, 0x00, 0x01, 0x08, 0x06, 0x00, 0x00, 0x00,
        0x1F, 0x15, 0xC4, 0x89, 0x00, 0x00, 0x00, 0x0D, 0x49, 0x44, 0x41, 0x54, 0x78,
        0x9C, 0x62, 0x00, 0x01, 0x00, 0x00, 0x05, 0x00, 0x01, 0x0D, 0x0A, 0x2D, 0xB4,
        0x00, 0x00, 0x00, 0x00, 0x49, 0x45, 0x4E, 0x44, 0xAE, 0x42, 0x60, 0x82,
    ]
}

fn error_text(result: Result<Vec<u8>, Error>) -> String {
    match result {
        Ok(_) => panic!("bytes where an error was due"),
        Err(error) => error.to_text(),
    }
}

fn finished(read: SessionRead) -> Result<Vec<u8>, Error> {
    assert!(matches!(read.action(), ReadAction::Finished));
    match read.into_result() {
        Some(result) => result,
        None => panic!("the read is not over"),
    }
}

#[test]
fn test_mime_from_extension_known() {
    assert_eq!(mime_from_extension("png"), Some("image/png"));
    assert_eq!(mime_from_extension("PNG"), Some("image/png"));
    assert_eq!(mime_from_extension("jpg"), Some("image/jpeg"));
    assert_eq!(mime_from_extension("jpeg"), Some("image/jpeg"));
    assert_eq!(mime_from_extension("gif"), Some("image/gif"));
    assert_eq!(mime_from_extension("webp"), Some("image/webp"));
}

#[test]
fn test_mime_from_extension_unknown() {
    assert_eq!(mime_from_extension("txt"), None);
    assert_eq!(mime_from_extension(""), None);
    assert_eq!(mime_from_extension("bmp"), None);
}

#[test]
fn mime_ignores_ascii_case_only() {
    assert_eq!(mime_from_extension("JpEg"), Some("image/jpeg"));
    assert_eq!(mime_from_extension("WEBP"), Some("image/webp"));
    // The dotless i is no ASCII letter.
    assert_eq!(mime_from_extension("g\u{131}f"), None);
}

#[test]
fn test_read_host_file_missing() {
    let read = plain_tool().read_file_for_session("main", "/nonexistent/path/foo.png");
    match read.action() {
        ReadAction::HostMetadata { path } => assert_eq!(path, "/nonexistent/path/foo.png"),
        _ => panic!("the host is not asked"),
    }
    let read = read.advance(ReadEvent::HostMetadata(Err("No such file or directory".to_string())));
    let result = finished(read);
    assert!(result.is_err());
    assert_eq!(
        error_text(result),
        "cannot access '/nonexistent/path/foo.png': No such file or directory"
    );
}

#[test]
fn test_execute_unsupported_extension() {
    let tool = plain_tool();
    let result = tool.execute(&object(&[("path", Value::from("/tmp/foo.txt"))]));
    assert!(result.is_err());
    let text = result.err().unwrap().to_text();
    assert!(text.contains("unsupported image format"));
    assert_eq!(text, "unsupported image format '.txt' — supported: png, jpg, jpeg, gif, webp");
}

#[test]
fn test_execute_no_extension() {
    let tool = plain_tool();
    let result = tool.execute(&object(&[("path", Value::from("/tmp/no_extension"))]));
    assert!(result.is_err());
    let text = result.err().unwrap().to_text();
    assert!(text.contains("no extension"));
    assert_eq!(text, "file has no extension — supported: png, jpg, jpeg, gif, webp");
}

#[test]
fn execute_without_a_path() {
    let tool = plain_tool();
    let calls = [
        object(&[]),
        object(&[("path", Value::from(7u64))]),
        object(&[("path", Value::Null)]),
        Value::Null,
        Value::from("path"),
        Value::Array(vec![Value::from("/tmp/foo.png")]),
    ];
    for call in calls.iter() {
        assert_eq!(tool.execute(call).err().unwrap().to_text(), "missing 'path' parameter");
    }
}

#[test]
fn test_execute_real_file_round_trip() {
    let png_bytes = png();
    let path = "/tmp/__moltis_read_image_test.png";
    let tool = plain_tool();
    let (request, read) = match tool.execute(&object(&[("path", Value::from(path))])) {
        Ok(started) => started,
        Err(error) => panic!("{}", error.to_text()),
    };
    let read = read.advance(ReadEvent::HostMetadata(Ok(FileInfo {
        is_file: true,
        len: png_bytes.len() as u64,
    })));
    match read.action() {
        ReadAction::HostRead { path: asked } => assert_eq!(asked, path),
        _ => panic!("the file is not read"),
    }
    let read = read.advance(ReadEvent::HostRead(Ok(png_bytes.clone())));
    let reply = match complete(&request, finished(read)) {
        Ok(reply) => reply,
        Err(error) => panic!("{}", error.to_text()),
    };
    let result = reply.result;
    assert_eq!(result["mime"], "image/png");
    assert_eq!(result["size_bytes"], png_bytes.len());
    assert!(result["image"].as_str().unwrap().starts_with("data:image/png;base64,"));
    assert_eq!(result["path"], path);
    assert_eq!(result["loaded"], true);
    assert_eq!(
        result["note"],
        "Image is now in your vision context for this turn — describe what you see directly in your reply."
    );
    assert_eq!(result.as_object().unwrap().len(), 6);
    let data = &result["image"].as_str().unwrap()["data:image/png;base64,".len()..];
    let engine = base64::engine::general_purpose::STANDARD;
    assert_eq!(engine.decode(data).unwrap(), png_bytes);
    assert_eq!(reply.cached.data, data);
    assert_eq!(reply.cached.mime, "image/png");
    assert_eq!(reply.cached.session_key, "main");
    assert_eq!(reply.cached.ttl, 6);
}

#[test]
fn session_key_of_a_call() {
    let tool = sandboxed_tool();
    let call = object(&[("path", Value::from("a.gif")), ("_session_key", Value::from("s-1"))]);
    let (request, read) = match tool.execute(&call) {
        Ok(started) => started,
        Err(error) => panic!("{}", error.to_text()),
    };
    assert_eq!(request.session_key, "s-1");
    assert_eq!(request.mime, "image/gif");
    match read.action() {
        ReadAction::AskSandboxed { session_key } => assert_eq!(session_key, "s-1"),
        _ => panic!("the router is not asked"),
    }
    let call = object(&[("path", Value::from("a.gif")), ("_session_key", Value::from(1u64))]);
    assert_eq!(tool.execute(&call).ok().unwrap().0.session_key, "main");
}

#[test]
fn failed_read_fails_the_call() {
    let request = make_request(Some("/x.webp"), Some("webp"), None).ok().unwrap();
    let read = Err(Error::message("no such thing".to_string()));
    assert_eq!(complete(&request, read).err().unwrap().to_text(), "no such thing");
}

#[test]
fn empty_file_is_an_image_of_no_bytes() {
    let request = make_request(Some("/x.webp"), Some("webp"), Some("k")).ok().unwrap();
    let reply = complete(&request, Ok(Vec::new())).ok().unwrap();
    assert_eq!(reply.cached.data, "");
    assert_eq!(reply.result["size_bytes"], 0u64);
    assert_eq!(reply.result["image"], "data:image/webp;base64,");
}

#[test]
fn reply_from_given_data() {
    let request = make_request(Some("/tmp/x.JPG"), Some("JPG"), Some("k")).ok().unwrap();
    let reply = make_reply(&request, 3, "QUJD".to_string());
    assert_eq!(reply.result["image"], "data:image/jpeg;base64,QUJD");
    assert_eq!(reply.result["size_bytes"], 3u64);
    assert_eq!(reply.result["path"], "/tmp/x.JPG");
    assert_eq!(reply.cached.session_key, "k");
}

#[test]
fn tool_carries_its_router() {
    assert!(plain_tool().sandbox_router().is_none());
    let default: ReadImageTool<Router> = ReadImageTool::default();
    assert!(default.sandbox_router().is_none());
    assert_eq!(sandboxed_tool().sandbox_router().unwrap().name, "router");
    let other = sandboxed_tool().with_sandbox_router(Arc::new(Router { name: "other" }));
    assert_eq!(other.sandbox_router().unwrap().name, "other");
}

#[test]
fn tool_describes_itself() {
    let tool = plain_tool();
    assert_eq!(tool.name(), "read_image");
    assert!(tool.description().starts_with("Read a local image file and load it"));
    assert!(tool.description().contains("Max 20 MB."));
    assert!(tool.description().ends_with("call `read_image` again."));
    let path = object(&[
        ("type", Value::from("string")),
        ("description", Value::from("Absolute file path to the image (e.g. /tmp/screenshot.png)")),
    ]);
    let schema = object(&[
        ("type", Value::from("object")),
        ("required", Value::Array(vec![Value::from("path")])),
        ("properties", object(&[("path", path)])),
    ]);
    assert_eq!(tool.parameters_schema(), schema);
}

#[test]
fn host_metadata_decides() {
    let regular = FileInfo { is_file: true, len: MAX_FILE_SIZE };
    assert!(check_host_metadata("/a.png", Ok(regular)).is_ok());
    let directory = FileInfo { is_file: false, len: 4096 };
    assert_eq!(
        check_host_metadata("/a.png", Ok(directory)).err().unwrap().to_text(),
        "'/a.png' is not a regular file"
    );
    let large = FileInfo { is_file: true, len: MAX_FILE_SIZE + 1 };
    assert_eq!(
        check_host_metadata("/a.png", Ok(large)).err().unwrap().to_text(),
        "file is too large (20.0 MB) — maximum is 20 MB"
    );
}

#[test]
fn host_bytes_are_taken_within_the_limit() {
    assert_eq!(accept_host_bytes("/a.png", Ok(vec![1, 2, 3])).ok().unwrap(), vec![1, 2, 3]);
    let limit = MAX_FILE_SIZE as usize;
    assert_eq!(accept_host_bytes("/a.png", Ok(vec![0; limit])).ok().unwrap().len(), limit);
    assert_eq!(
        error_text(accept_host_bytes("/a.png", Ok(vec![0; limit + 1048576]))),
        "file is too large (21.0 MB) — maximum is 20 MB"
    );
    assert_eq!(
        error_text(accept_host_bytes("/a.png", Err("Permission denied".to_string()))),
        "failed to read '/a.png': Permission denied"
    );
}

#[test]
fn large_file_on_host_is_not_read() {
    let read = plain_tool().read_file_for_session("main", "/a.png");
    let read = read.advance(ReadEvent::HostMetadata(Ok(FileInfo {
        is_file: true,
        len: 31 * 1024 * 1024 + 512 * 1024,
    })));
    assert_eq!(error_text(finished(read)), "file is too large (31.5 MB) — maximum is 20 MB");
}

#[test]
fn unsandboxed_session_is_read_on_the_host() {
    let read = sandboxed_tool().read_file_for_session("s", "/a.png");
    let read = read.advance(ReadEvent::Sandboxed(false));
    assert!(matches!(read.action(), ReadAction::HostMetadata { .. }));
}

fn running(path: &str) -> SessionRead {
    let read = sandboxed_tool().read_file_for_session("s", path);
    let read = read.advance(ReadEvent::Sandboxed(true));
    match read.action() {
        ReadAction::ResolveSandbox { session_key } => assert_eq!(session_key, "s"),
        _ => panic!("the sandbox is not looked up"),
    }
    let read = read.advance(ReadEvent::SandboxResolved {
        sandbox_id: "box-s".to_string(),
        image: "image:1".to_string(),
    });
    match read.action() {
        ReadAction::PrepareSandbox { sandbox_id, image } => {
            assert_eq!(sandbox_id, "box-s");
            assert_eq!(image, "image:1");
        }
        _ => panic!("the sandbox is not made ready"),
    }
    read.advance(ReadEvent::SandboxPrepared(Ok(())))
}

#[test]
fn sandboxed_session_is_read_in_the_sandbox() {
    let read = running("/home/sandbox/a b.png");
    match read.action() {
        ReadAction::RunCommand { sandbox_id, command, opts } => {
            assert_eq!(sandbox_id, "box-s");
            assert!(command.starts_with("if [ ! -f '/home/sandbox/a b.png' ]; then"));
            assert_eq!(opts.timeout_secs, 30);
            assert_eq!(opts.max_output_bytes, MAX_SANDBOX_OUTPUT_BYTES);
            assert_eq!(opts.working_dir, Some("/home/sandbox".to_string()));
            assert!(opts.env.is_empty());
        }
        _ => panic!("no command is run"),
    }
    let engine = base64::engine::general_purpose::STANDARD;
    let read = read.advance(ReadEvent::CommandRan(Ok(ExecResult {
        exit_code: 0,
        stdout: engine.encode(png()),
        stderr: "a warning".to_string(),
    })));
    assert_eq!(finished(read).ok().unwrap(), png());
}

#[test]
fn sandbox_failure_does_not_fall_back_to_the_host() {
    let read = sandboxed_tool().read_file_for_session("s", "/a.png");
    let read = read.advance(ReadEvent::Sandboxed(true));
    let read = read.advance(ReadEvent::SandboxResolved {
        sandbox_id: "box-s".to_string(),
        image: "image:1".to_string(),
    });
    let read = read.advance(ReadEvent::SandboxPrepared(Err(Error::message("no daemon".to_string()))));
    assert!(matches!(read.action(), ReadAction::Finished));
    // Nothing that happens later changes how the read ended.
    let read = read.advance(ReadEvent::HostRead(Ok(vec![1])));
    assert_eq!(error_text(finished(read)), "no daemon");
    let read = running("/a.png");
    let read = read.advance(ReadEvent::CommandRan(Err(Error::message("timed out".to_string()))));
    assert_eq!(error_text(finished(read)), "timed out");
}

#[test]
fn events_out_of_turn_change_nothing() {
    let read = running("/a.png");
    let read = read.advance(ReadEvent::HostRead(Ok(vec![1])));
    let read = read.advance(ReadEvent::Sandboxed(false));
    assert!(matches!(read.action(), ReadAction::RunCommand { .. }));
    assert!(read.into_result().is_none());
}

#[test]
fn nothing_is_touched_before_the_router_answers() {
    let read = sandboxed_tool().read_file_for_session("s", "/a.png");
    let read = read.advance(ReadEvent::HostMetadata(Ok(FileInfo { is_file: true, len: 1 })));
    let read = read.advance(ReadEvent::SandboxPrepared(Ok(())));
    assert!(matches!(read.action(), ReadAction::AskSandboxed { .. }));
}

#[test]
fn output_of_the_largest_file_fits() {
    let engine = base64::engine::general_purpose::STANDARD;
    let text = engine.encode(vec![0u8; MAX_FILE_SIZE as usize]);
    assert_eq!(text.len(), 27962028);
    assert!(text.len() <= MAX_SANDBOX_OUTPUT_BYTES);
}

#[test]
fn request_from_given_parts() {
    let refused = |path, ext| make_request(path, ext, None).err().unwrap().to_text();
    assert_eq!(refused(None, Some("png")), "missing 'path' parameter");
    assert_eq!(
        refused(Some("C:\\x\\.png"), None),
        "file has no extension — supported: png, jpg, jpeg, gif, webp"
    );
    assert_eq!(
        refused(Some("/a.BMP"), Some("BMP")),
        "unsupported image format '.BMP' — supported: png, jpg, jpeg, gif, webp"
    );
    let request = make_request(Some("/a.PNG"), Some("PNG"), None).ok().unwrap();
    assert_eq!(request.path, "/a.PNG");
    assert_eq!(request.session_key, "main");
    assert_eq!(request.mime, "image/png");
}

#[test]
fn tool_knows_the_separators_of_the_host() {
    let backslash = std::path::is_separator('\\');
    let seps = Separators { slash: std::path::is_separator('/'), backslash };
    assert_eq!(plain_tool().path_separators(), seps);
    assert_eq!(sandboxed_tool().path_separators(), seps);
    let hidden = plain_tool().execute(&object(&[("path", Value::from("x\\.png"))]));
    assert_eq!(hidden.is_err(), backslash);
}

#[test]
fn images_in_directories_are_read() {
    for path in ["a.png", "/tmp/a.png", "C:\\x.d\\a.PNG", "C:/x.d/a.png", "x\\a.png"] {
        let (request, _) = plain_tool().execute(&object(&[("path", Value::from(path))])).ok().unwrap();
        assert_eq!(request.path, path);
        assert_eq!(request.mime, "image/png");
    }
    for path in ["C:\\x.png\\a.bmp", "/tmp.png/a.bmp"] {
        let error = plain_tool().execute(&object(&[("path", Value::from(path))])).err().unwrap();
        assert_eq!(error.to_text(), "unsupported image format '.bmp' — supported: png, jpg, jpeg, gif, webp");
    }
}
