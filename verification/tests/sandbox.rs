use moltis_core::sandbox::{
    accept_decoded, check_limit, finish_read, read_command, read_failure, too_large, ExecResult, MAX_FILE_SIZE,
};
use moltis_core::shell::shell_single_quote;

fn failed(exit_code: i32, stdout: &str, stderr: &str) -> ExecResult {
    ExecResult { exit_code, stdout: stdout.to_string(), stderr: stderr.to_string() }
}

fn failure(exit_code: i32, stdout: &str, stderr: &str) -> String {
    read_failure("/p.png", &failed(exit_code, stdout, stderr)).to_text()
}

#[test]
fn test_shell_single_quote_simple() {
    assert_eq!(shell_single_quote("/tmp/foo.png"), "'/tmp/foo.png'");
}

#[test]
fn test_shell_single_quote_with_apostrophe() {
    assert_eq!(shell_single_quote("/tmp/it's.png"), "'/tmp/it'\\''s.png'");
}

#[test]
fn quoting_leaves_everything_else_alone() {
    assert_eq!(shell_single_quote(""), "''");
    assert_eq!(shell_single_quote("'"), "''\\'''");
    assert_eq!(shell_single_quote("$(x) `y` \\ \" é\n"), "'$(x) `y` \\ \" é\n'");
}

#[test]
fn command_for_a_path() {
    assert_eq!(
        read_command("/tmp/it's.png"),
        "if [ ! -f '/tmp/it'\\''s.png' ]; then echo \"path is not a regular file\" >&2; exit 2; fi; \
         size=$(wc -c < '/tmp/it'\\''s.png'); \
         if [ \"$size\" -gt 20971520 ]; then echo \"__MOLTIS_READ_IMAGE_TOO_LARGE__:$size\" >&2; exit 3; fi; \
         base64 < '/tmp/it'\\''s.png' | tr -d '\\n'"
    );
}

#[test]
fn size_in_the_refusal() {
    for size in [
        0u64, 1, 52428, 52429, 262144, 262145, 786432, 1048576, 20971521, 26214400, 31457281, 123456789,
        9007199254740991, 9007199254740993, 9007199255003137, 4611686018427387903, 9223372036855038977,
        u64::MAX,
    ] {
        assert_eq!(
            too_large(size).to_text(),
            format!(
                "file is too large ({:.1} MB) — maximum is {:.0} MB",
                size as f64 / (1024.0 * 1024.0),
                MAX_FILE_SIZE as f64 / (1024.0 * 1024.0),
            )
        );
    }
}

#[test]
fn size_in_the_refusal_over_many_sizes() {
    let mut size: u64 = 1;
    for step in 0..20000u64 {
        size = size.wrapping_mul(6364136223846793005).wrapping_add(1442695040888963407);
        let some = size >> (step % 60);
        let quarter = (some >> 18) << 18;
        for n in [some, quarter] {
            let expected = format!("file is too large ({:.1} MB)", n as f64 / (1024.0 * 1024.0));
            assert!(too_large(n).to_text().starts_with(&expected));
        }
    }
}

#[test]
fn limit_is_kept() {
    assert!(check_limit(vec![0; MAX_FILE_SIZE as usize]).is_ok());
    assert_eq!(
        check_limit(vec![0; MAX_FILE_SIZE as usize + 1]).err().unwrap().to_text(),
        "file is too large (20.0 MB) — maximum is 20 MB"
    );
}

#[test]
fn reported_size_is_recognised() {
    let expected = "file is too large (30.0 MB) — maximum is 20 MB";
    assert_eq!(failure(3, "", "__MOLTIS_READ_IMAGE_TOO_LARGE__:31457280\n"), expected);
    assert_eq!(failure(3, "", "__MOLTIS_READ_IMAGE_TOO_LARGE__: 31457280"), expected);
    assert_eq!(failure(3, "", "note\r\n__MOLTIS_READ_IMAGE_TOO_LARGE__:  +31457280\r\nmore"), expected);
}

#[test]
fn first_marked_line_counts() {
    let stderr = "__MOLTIS_READ_IMAGE_TOO_LARGE__:x\n__MOLTIS_READ_IMAGE_TOO_LARGE__:5";
    assert_eq!(failure(3, "", stderr), format!("cannot access '/p.png' in sandbox: {stderr}"));
    let stderr = " __MOLTIS_READ_IMAGE_TOO_LARGE__:5 ";
    assert_eq!(
        failure(3, "", stderr),
        "cannot access '/p.png' in sandbox: __MOLTIS_READ_IMAGE_TOO_LARGE__:5"
    );
}

#[test]
fn words_for_a_failed_command() {
    assert_eq!(
        failure(2, "out", " path is not a regular file\n"),
        "cannot access '/p.png' in sandbox: path is not a regular file"
    );
    assert_eq!(failure(1, "\tout \n", " \n"), "cannot access '/p.png' in sandbox: out");
    assert_eq!(
        failure(137, " ", ""),
        "cannot access '/p.png' in sandbox: sandbox command failed with exit code 137"
    );
    assert_eq!(
        failure(-1, "", ""),
        "cannot access '/p.png' in sandbox: sandbox command failed with exit code -1"
    );
    assert_eq!(
        failure(i32::MIN, "", ""),
        "cannot access '/p.png' in sandbox: sandbox command failed with exit code -2147483648"
    );
}

#[test]
fn output_is_decoded() {
    let read = |stdout: &str| finish_read("/p.png", &failed(0, stdout, "ignored"));
    assert_eq!(read("aGVsbG8=").ok().unwrap(), b"hello".to_vec());
    assert_eq!(read("  aGVsbG8=\n").ok().unwrap(), b"hello".to_vec());
    assert_eq!(read("").ok().unwrap(), Vec::<u8>::new());
    assert_eq!(
        read("aGVsbG8").err().unwrap().to_text(),
        "failed to decode sandbox file '/p.png': Invalid padding"
    );
    assert_eq!(
        read("aGV*bG8=").err().unwrap().to_text(),
        "failed to decode sandbox file '/p.png': Invalid symbol 42, offset 3."
    );
}

#[test]
fn failed_command_yields_no_bytes() {
    assert_eq!(
        finish_read("/p.png", &failed(1, "aGVsbG8=", "")).err().unwrap().to_text(),
        "cannot access '/p.png' in sandbox: aGVsbG8="
    );
}

#[test]
fn decoded_output_is_taken_within_the_limit() {
    assert_eq!(accept_decoded("/p.png", Ok(vec![7])).ok().unwrap(), vec![7]);
    assert_eq!(
        accept_decoded("/p.png", Ok(vec![0; 22 * 1024 * 1024])).err().unwrap().to_text(),
        "file is too large (22.0 MB) — maximum is 20 MB"
    );
    assert_eq!(
        accept_decoded("/p.png", Err("broken".to_string())).err().unwrap().to_text(),
        "failed to decode sandbox file '/p.png': broken"
    );
}
