use make_annotate::{LineProcessor, ProcessError};

fn emit(tracker: &mut LineProcessor, line: &str) -> String {
    tracker
        .process_line(line)
        .expect("line failed")
        .expect("missing output line")
}

#[test]
fn interpret_line() {
    let mut tracker = LineProcessor::new();
    assert_eq!(tracker.current_dir, "");

    tracker.process_line("random line").unwrap();
    assert_eq!(tracker.current_dir, "");

    // Enter directory
    let enter_line = r"make[1]: Entering directory '/home/me/source/main'";
    tracker.process_line(enter_line).unwrap();
    assert_eq!(tracker.current_dir, "/home/me/source/main");

    // Leave directory
    let leave_line = r"make[1]: Leaving directory '/home/me/source/main'";
    tracker.process_line(leave_line).unwrap();
    assert_eq!(tracker.current_dir, "/home/me/source");

    // Leave directory only works if we are already in the directory
    let leave_line = r"make[1]: Leaving directory '/home/me/something/else";
    tracker.process_line(leave_line).unwrap();
    assert_eq!(tracker.current_dir, "/home/me/source");

    // Add path to a diagnostic message
    let diag_line = r"ui/mainform.cpp:32:5: error: syntax error";
    let output = tracker
        .process_line(diag_line)
        .unwrap()
        .expect("missing output line");
    assert_eq!(output, "/home/me/source/ui/mainform.cpp:32:5: error: syntax error");
}

#[test]
fn unrecognized_lines_pass_through() {
    let mut tracker = LineProcessor::new();
    tracker.current_dir = String::from("/a/b");
    for line in [
        "random line",
        "",
        "make: Nothing to be done for 'all'.",
        "make[0]: Entering directory '/x'",
        "make[1]: Entering directory ''",
        "main.c:12: error: no column",
        "main.c:1:2: fatal error: x",
        "gcc -c main.c -o main.o",
    ] {
        assert_eq!(emit(&mut tracker, line), line);
        assert_eq!(tracker.current_dir, "/a/b");
    }
}

#[test]
fn enter_sets_directory() {
    let mut tracker = LineProcessor::new();
    let line = "make[1]: Entering directory '/a/b/c'";
    assert_eq!(emit(&mut tracker, line), line);
    assert_eq!(tracker.current_dir, "/a/b/c");
}

#[test]
fn leave_goes_to_parent() {
    let mut tracker = LineProcessor::new();
    emit(&mut tracker, "make[1]: Entering directory '/a/b/c'");
    let line = "make[1]: Leaving directory '/a/b/c'";
    assert_eq!(emit(&mut tracker, line), line);
    assert_eq!(tracker.current_dir, "/a/b");
}

#[test]
fn mismatched_leave_keeps_directory() {
    let mut tracker = LineProcessor::new();
    emit(&mut tracker, "make[1]: Entering directory '/a/b/c'");
    let line = "make[1]: Leaving directory '/x/y'";
    assert_eq!(tracker.process_line(line), Ok(Some(String::from(line))));
    assert_eq!(tracker.current_dir, "/a/b/c");
}

#[test]
fn diagnostic_gets_directory_prefix() {
    let mut tracker = LineProcessor::new();
    tracker.current_dir = String::from("/home/me/source");
    assert_eq!(
        emit(&mut tracker, "ui/mainform.cpp:32:5: error: syntax error"),
        "/home/me/source/ui/mainform.cpp:32:5: error: syntax error"
    );
    assert_eq!(
        emit(&mut tracker, "a.h:7:19: warning: unused"),
        "/home/me/source/a.h:7:19: warning: unused"
    );
    assert_eq!(
        emit(&mut tracker, "a.h:7:19: note: declared here"),
        "/home/me/source/a.h:7:19: note: declared here"
    );
    assert_eq!(tracker.current_dir, "/home/me/source");
}

#[test]
fn absolute_path_is_not_rewritten() {
    let mut tracker = LineProcessor::new();
    tracker.current_dir = String::from("/home/me/source");
    let line = "/abs/path.cpp:1:1: error: x";
    assert_eq!(emit(&mut tracker, line), line);
}

#[test]
fn diagnostic_with_empty_directory_gets_leading_slash() {
    let mut tracker = LineProcessor::new();
    assert_eq!(emit(&mut tracker, "f.c:1:1: error: e"), "/f.c:1:1: error: e");
}

#[test]
fn diagnostic_may_start_with_colon() {
    let mut tracker = LineProcessor::new();
    tracker.current_dir = String::from("/d");
    assert_eq!(emit(&mut tracker, ":x:1:2: error: e"), "/d/:x:1:2: error: e");
    let short = "x:1:2: error: e";
    assert_eq!(emit(&mut tracker, short), short);
}

#[test]
fn rerun_reproduces_output() {
    let input = [
        "gcc -c f.c",
        "f.c:1:1: error: e",
        "src/g.c:10:3: warning: w\n",
        "/abs/h.c:2:2: note: n",
        "done\r\n",
    ];
    let mut first = LineProcessor::new();
    let out: Vec<String> = input.iter().map(|l| emit(&mut first, l)).collect();
    assert_eq!(
        out,
        vec![
            "gcc -c f.c",
            "/f.c:1:1: error: e",
            "/src/g.c:10:3: warning: w",
            "/abs/h.c:2:2: note: n",
            "done",
        ]
    );
    let mut second = LineProcessor::new();
    let again: Vec<String> = out.iter().map(|l| emit(&mut second, l)).collect();
    assert_eq!(again, out);
    assert_eq!(second.current_dir, "");
}

#[test]
fn enter_diagnostic_leave_sequence() {
    let mut tracker = LineProcessor::new();
    let enter = "make[1]: Entering directory '/r/a'";
    let leave = "make[1]: Leaving directory '/r/a'";
    assert_eq!(emit(&mut tracker, enter), enter);
    assert_eq!(emit(&mut tracker, "f.c:1:1: error: e"), "/r/a/f.c:1:1: error: e");
    assert_eq!(emit(&mut tracker, leave), leave);
    assert_eq!(tracker.current_dir, "/r");
}

#[test]
fn line_terminators_are_removed() {
    let mut tracker = LineProcessor::new();
    assert_eq!(
        emit(&mut tracker, "make[2]: Entering directory '/p/q'\r\n"),
        "make[2]: Entering directory '/p/q'"
    );
    assert_eq!(tracker.current_dir, "/p/q");
    assert_eq!(emit(&mut tracker, "x.c:3:4: note: here\n"), "/p/q/x.c:3:4: note: here");
}

#[test]
fn text_after_closing_quote_is_ignored() {
    let mut tracker = LineProcessor::new();
    emit(&mut tracker, "make[9]: Entering directory '/s/t' (again)");
    assert_eq!(tracker.current_dir, "/s/t");
}

#[test]
fn leave_edge_paths() {
    let mut tracker = LineProcessor::new();
    emit(&mut tracker, "make[1]: Entering directory '/a'");
    emit(&mut tracker, "make[1]: Leaving directory '/a'");
    assert_eq!(tracker.current_dir, "/");

    emit(&mut tracker, "make[1]: Entering directory 'rel'");
    emit(&mut tracker, "make[1]: Leaving directory 'rel'");
    assert_eq!(tracker.current_dir, "");

    emit(&mut tracker, "make[1]: Entering directory '/a/b/'");
    emit(&mut tracker, "make[1]: Leaving directory '/a/b/'");
    assert_eq!(tracker.current_dir, "/a");
}

#[test]
fn leaving_root_is_an_error() {
    let mut tracker = LineProcessor::new();
    emit(&mut tracker, "make[1]: Entering directory '/'");
    let r = tracker.process_line("make[1]: Leaving directory '/'");
    assert_eq!(
        r,
        Err(ProcessError::NoParentDirectory { path: String::from("/") })
    );
    assert_eq!(tracker.current_dir, "/");
}
