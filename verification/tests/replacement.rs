use anda_extension::atomic::{
    atomic_temp_path, atomic_temp_path_with, atomic_write_file, atomic_write_file_with,
    commit_atomic_replace, write_temp_file_for_atomic_replace, write_temp_file_with, AtomicWrite,
    TempFileWrite, WriteReply, WriteRequest, TEMP_FILE_ATTEMPTS,
};
use anda_extension::path::PosixPath;
use anda_extension::resolve::Step;

fn posix(text: &str) -> PosixPath {
    PosixPath::from_text(text)
}

fn shown(request: WriteRequest<PosixPath>) -> String {
    match request {
        WriteRequest::CreateNew(path) => format!("create {}", path.display()),
        WriteRequest::WriteAll(path) => format!("write {}", path.display()),
        WriteRequest::SetPermissions(path) => format!("permit {}", path.display()),
        WriteRequest::Sync(path) => format!("sync {}", path.display()),
        WriteRequest::Remove(path) => format!("remove {}", path.display()),
        WriteRequest::Rename { from, to } => {
            format!("rename {} {}", from.display(), to.display())
        }
    }
}

fn failed(error: &str) -> WriteReply<String> {
    WriteReply::Failed(error.to_string())
}

/// Runs a replacement whose answers are given and whose later names come from `nonce`.
fn run(
    step: Step<AtomicWrite<PosixPath, String>, (), String>,
    replies: Vec<WriteReply<String>>,
    nonce: u64,
) -> (Vec<String>, Result<(), String>) {
    let mut asked = Vec::new();
    let mut replies = replies.into_iter();
    let mut step = step;
    loop {
        match step {
            Step::Continue(write) => {
                asked.push(shown(write.request()));
                step = write.reply_with(replies.next().unwrap_or(WriteReply::Done), nonce);
            }
            Step::Found(()) => return (asked, Ok(())),
            Step::Refused(error) => return (asked, Err(error)),
        }
    }
}

#[test]
fn temporary_files_stand_beside_their_target() {
    let temp = atomic_temp_path_with(&posix("/w/d/f.txt"), 0xabc).unwrap();
    assert_eq!(temp.display(), "/w/d/.f.txt.anda-tmp-0000000000000abc");
    let temp = atomic_temp_path_with(&posix("f"), u64::MAX).unwrap();
    assert_eq!(temp.display(), ".f.anda-tmp-ffffffffffffffff");
    let temp = atomic_temp_path_with(&posix("/f/"), 0).unwrap();
    assert_eq!(temp.display(), "/.f.anda-tmp-0000000000000000");
}

#[test]
fn targets_without_a_name_have_no_temporary_file() {
    assert_eq!(
        atomic_temp_path_with(&posix("/"), 0).map(|p| p.display()),
        Err("Failed to determine parent directory for write target (target_path: /)".to_string())
    );
    assert_eq!(
        atomic_temp_path_with(&posix(""), 0).map(|p| p.display()),
        Err("Failed to determine parent directory for write target (target_path: )".to_string())
    );
    assert_eq!(
        atomic_temp_path_with(&posix("/w/.."), 0).map(|p| p.display()),
        Err("Failed to determine file name for write target (target_path: /w/..)".to_string())
    );
    match atomic_write_file(&posix("/"), false) {
        Step::Refused(error) => assert_eq!(
            error,
            "Failed to determine parent directory for write target (target_path: /)"
        ),
        _ => panic!("went on"),
    }
}

#[test]
fn random_names_differ() {
    let target = posix("/w/f");
    let first = atomic_temp_path(&target).unwrap().display();
    let second = atomic_temp_path(&target).unwrap().display();
    assert!(first.starts_with("/w/.f.anda-tmp-"));
    assert_eq!(first.len(), "/w/.f.anda-tmp-".len() + 16);
    assert!(first["/w/.f.anda-tmp-".len()..].chars().all(|c| c.is_ascii_hexdigit()));
    assert_ne!(first, second);
}

#[test]
fn a_file_is_replaced_in_order() {
    let temp = "/w/.f.anda-tmp-0000000000000001";
    let (asked, result) = run(atomic_write_file_with(&posix("/w/f"), true, 1), Vec::new(), 2);
    assert_eq!(result, Ok(()));
    assert_eq!(
        asked,
        [
            format!("create {temp}"),
            format!("write {temp}"),
            format!("permit {temp}"),
            format!("sync {temp}"),
            format!("rename {temp} /w/f"),
        ]
    );
    let (asked, result) = run(atomic_write_file_with(&posix("/w/f"), false, 1), Vec::new(), 2);
    assert_eq!(result, Ok(()));
    assert_eq!(
        asked,
        [
            format!("create {temp}"),
            format!("write {temp}"),
            format!("sync {temp}"),
            format!("rename {temp} /w/f"),
        ]
    );
}

#[test]
fn another_name_is_tried_where_one_is_taken() {
    let replies = vec![WriteReply::AlreadyExists];
    let (asked, result) = run(atomic_write_file_with(&posix("f"), false, 1), replies, 2);
    assert_eq!(result, Ok(()));
    assert_eq!(asked[0], "create .f.anda-tmp-0000000000000001");
    assert_eq!(asked[1], "create .f.anda-tmp-0000000000000002");
    assert_eq!(asked[4], "rename .f.anda-tmp-0000000000000002 f");
}

#[test]
fn names_run_out() {
    assert_eq!(TEMP_FILE_ATTEMPTS, 16);
    let replies = (0..40).map(|_| WriteReply::AlreadyExists).collect();
    let (asked, result) = run(atomic_write_file_with(&posix("f"), false, 1), replies, 2);
    assert_eq!(asked.len(), 16);
    assert_eq!(
        result,
        Err("Failed to allocate unique temporary file for atomic write (target_path: f)".to_string())
    );
}

#[test]
fn a_file_that_cannot_be_created_is_not_removed() {
    let (asked, result) =
        run(atomic_write_file_with(&posix("f"), false, 1), vec![failed("full")], 2);
    assert_eq!(asked, ["create .f.anda-tmp-0000000000000001"]);
    assert_eq!(
        result,
        Err("Failed to create temporary file (target_path: f, temp_path: .f.anda-tmp-0000000000000001): full".to_string())
    );
}

#[test]
fn a_file_that_cannot_be_prepared_is_removed() {
    let temp = ".f.anda-tmp-0000000000000001";
    let texts = [
        "Failed to write temporary file",
        "Failed to apply file permissions",
        "Failed to sync temporary file",
    ];
    let mut done = 1;
    for text in texts {
        let mut replies: Vec<WriteReply<String>> = (0..done).map(|_| WriteReply::Done).collect();
        replies.push(failed("full"));
        replies.push(failed("still there"));
        let (asked, result) = run(atomic_write_file_with(&posix("f"), true, 1), replies, 2);
        assert_eq!(asked.len(), done + 2);
        assert_eq!(asked[done + 1], format!("remove {temp}"));
        assert_eq!(
            result,
            Err(format!("{text} (target_path: f, temp_path: {temp}): full"))
        );
        done += 1;
    }
}

#[test]
fn a_file_that_cannot_be_renamed_is_removed() {
    let temp = ".f.anda-tmp-0000000000000001";
    let mut replies: Vec<WriteReply<String>> = (0..3).map(|_| WriteReply::Done).collect();
    replies.push(failed("busy"));
    let (asked, result) = run(atomic_write_file_with(&posix("f"), false, 1), replies, 2);
    assert_eq!(asked[3], format!("rename {temp} f"));
    assert_eq!(asked[4], format!("remove {temp}"));
    assert_eq!(
        result,
        Err(format!(
            "Failed to atomically replace file (temp_path: {temp}, target_path: f): busy"
        ))
    );
}

#[test]
fn a_rename_is_reported() {
    assert_eq!(commit_atomic_replace(&posix("t"), &posix("f"), Ok(())), Ok(()));
    assert_eq!(
        commit_atomic_replace(&posix("t"), &posix("f"), Err("busy".to_string())),
        Err("Failed to atomically replace file (temp_path: t, target_path: f): busy".to_string())
    );
}

fn prepare(step: Step<TempFileWrite<PosixPath, String>, PosixPath, String>) -> (usize, String) {
    let mut step = step;
    let mut asked = 0;
    loop {
        match step {
            Step::Continue(write) => {
                shown(write.request());
                asked += 1;
                step = write.reply(WriteReply::Done);
            }
            Step::Found(temp) => return (asked, temp.display()),
            Step::Refused(error) => panic!("{}", error),
        }
    }
}

#[test]
fn a_temporary_file_is_prepared() {
    let (asked, temp) = prepare(write_temp_file_with(&posix("/w/f"), false, 0x10));
    assert_eq!(asked, 3);
    assert_eq!(temp, "/w/.f.anda-tmp-0000000000000010");
    let (asked, temp) = prepare(write_temp_file_for_atomic_replace(&posix("/w/f"), true));
    assert_eq!(asked, 4);
    assert!(temp.starts_with("/w/.f.anda-tmp-"));
}

#[test]
fn a_whole_replacement_draws_its_names() {
    let mut step = atomic_write_file(&posix("/w/f"), false);
    let mut asked = Vec::new();
    let mut first = true;
    while let Step::Continue(write) = step {
        asked.push(shown(write.request()));
        let reply = if first { WriteReply::AlreadyExists } else { WriteReply::Done };
        first = false;
        step = write.reply(reply);
    }
    assert!(matches!(step, Step::Found(())));
    assert_eq!(asked.len(), 5);
    assert!(asked[0].starts_with("create /w/.f.anda-tmp-"));
    assert!(asked[1].starts_with("create /w/.f.anda-tmp-"));
    assert_ne!(asked[0], asked[1]);
    assert!(asked[4].ends_with(" /w/f"));
}

/// What a replacement does to the files of a directory.
#[test]
fn the_target_holds_the_old_or_the_new_data() {
    let mut failing = 0;
    while failing <= 6 {
        let mut files = std::collections::BTreeMap::new();
        files.insert("f".to_string(), "old".to_string());
        files.insert("g".to_string(), "other".to_string());
        let mut step = atomic_write_file_with(&posix("f"), true, 9);
        let mut count = 0;
        while let Step::Continue(write) = step {
            let fails = count == failing;
            count += 1;
            let request = write.request();
            if !fails {
                match &request {
                    WriteRequest::CreateNew(path) => {
                        files.insert(path.display(), String::new());
                    }
                    WriteRequest::WriteAll(path) => {
                        files.insert(path.display(), "new".to_string());
                    }
                    WriteRequest::Rename { from, to } => {
                        let data = files.remove(&from.display()).unwrap();
                        files.insert(to.display(), data);
                    }
                    WriteRequest::Remove(path) => {
                        files.remove(&path.display());
                    }
                    _ => {}
                }
            }
            step = write.reply_with(if fails { failed("no") } else { WriteReply::Done }, 9);
        }
        let expected = if matches!(step, Step::Found(())) { "new" } else { "old" };
        assert_eq!(files.get("f").map(String::as_str), Some(expected));
        assert_eq!(files.get("g").map(String::as_str), Some("other"));
        assert_eq!(files.len(), 2);
        assert_eq!(expected == "new", failing >= 5);
        failing += 1;
    }
}

/// What a preparation does to the files of a directory.
#[test]
fn a_preparation_adds_one_file_or_none() {
    let temp = ".f.anda-tmp-0000000000000009";
    let mut failing = 0;
    while failing <= 5 {
        let mut files = std::collections::BTreeMap::new();
        files.insert("f".to_string(), "old".to_string());
        let mut step = write_temp_file_with(&posix("f"), true, 9);
        let mut count = 0;
        while let Step::Continue(write) = step {
            let fails = count == failing;
            count += 1;
            match (write.request(), fails) {
                (WriteRequest::CreateNew(path), false) => {
                    files.insert(path.display(), String::new());
                }
                (WriteRequest::WriteAll(path), fails) => {
                    let data = if fails { "ne" } else { "new" };
                    files.insert(path.display(), data.to_string());
                }
                (WriteRequest::Remove(path), false) => {
                    files.remove(&path.display());
                }
                _ => {}
            }
            step = write.reply_with(if fails { failed("no") } else { WriteReply::Done }, 9);
        }
        assert_eq!(files.get("f").map(String::as_str), Some("old"));
        match step {
            Step::Found(path) => {
                assert_eq!(path.display(), temp);
                assert_eq!(files.get(temp).map(String::as_str), Some("new"));
                assert_eq!(files.len(), 2);
                assert!(failing >= 4);
            }
            _ => {
                assert_eq!(files.len(), 1);
                assert!(failing < 4);
            }
        }
        failing += 1;
    }
}
