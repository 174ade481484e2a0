use anda_extension::path::PosixPath;
use anda_extension::resolve::{resolve_read_path, resolve_workspace_path, FsReply, FsRequest, Step};
use anda_extension::resolve_write::{join_missing, nearest_existing_ancestor, resolve_write_path};
use anda_extension::search::{resolve_read_path_in_workspaces, resolve_write_path_in_workspaces};
use std::collections::BTreeMap;

/// A file system in memory: canonical forms of the paths that exist, and symlinks.
struct Tree {
    canonical: BTreeMap<&'static str, &'static str>,
    symlinks: Vec<&'static str>,
    blocked: Vec<&'static str>,
}

impl Tree {
    fn new(canonical: &[(&'static str, &'static str)]) -> Self {
        Tree {
            canonical: canonical.iter().copied().collect(),
            symlinks: Vec::new(),
            blocked: Vec::new(),
        }
    }

    fn answer(&self, request: FsRequest<PosixPath>) -> FsReply<PosixPath, String> {
        match request {
            FsRequest::Canonicalize(path) => match self.canonical.get(path.display().as_str()) {
                Some(form) => FsReply::Canonical(posix(form)),
                None => FsReply::CanonicalFailed("not found".to_string()),
            },
            FsRequest::Inspect(path) => {
                let text = path.display();
                if self.blocked.iter().any(|b| *b == text) {
                    FsReply::InspectFailed("denied".to_string())
                } else if self.symlinks.iter().any(|s| *s == text) {
                    FsReply::Present { is_symlink: true }
                } else if self.canonical.contains_key(text.as_str()) {
                    FsReply::Present { is_symlink: false }
                } else {
                    FsReply::Missing
                }
            }
        }
    }

    fn read(&self, workspace: &str, user_path: &str) -> Result<String, String> {
        let mut resolution = resolve_read_path(&posix(workspace), user_path);
        loop {
            let reply = self.answer(resolution.request());
            match resolution.reply(reply) {
                Step::Continue(next) => resolution = next,
                Step::Found(path) => return Ok(path.display()),
                Step::Refused(error) => return Err(error),
            }
        }
    }

    fn write(&self, workspace: &str, user_path: &str) -> Result<String, String> {
        let mut resolution = resolve_write_path(&posix(workspace), user_path);
        loop {
            let reply = self.answer(resolution.request());
            match resolution.reply(reply) {
                Step::Continue(next) => resolution = next,
                Step::Found(path) => return Ok(path.display()),
                Step::Refused(error) => return Err(error),
            }
        }
    }

    fn read_any(&self, workspaces: &[&str], user_path: &str) -> Result<(String, String), String> {
        let workspaces: Vec<PosixPath> = workspaces.iter().map(|w| posix(w)).collect();
        let mut step = resolve_read_path_in_workspaces(&workspaces, user_path);
        loop {
            match step {
                Step::Continue(search) => {
                    let reply = self.answer(search.request());
                    step = search.reply(reply);
                }
                Step::Found(found) => {
                    return Ok((found.workspace.display(), found.path.display()))
                }
                Step::Refused(error) => return Err(error),
            }
        }
    }

    fn write_any(&self, workspaces: &[&str], user_path: &str) -> Result<(String, String), String> {
        let workspaces: Vec<PosixPath> = workspaces.iter().map(|w| posix(w)).collect();
        let mut step = resolve_write_path_in_workspaces(&workspaces, user_path);
        loop {
            match step {
                Step::Continue(search) => {
                    let reply = self.answer(search.request());
                    step = search.reply(reply);
                }
                Step::Found(found) => {
                    return Ok((found.workspace.display(), found.path.display()))
                }
                Step::Refused(error) => return Err(error),
            }
        }
    }
}

fn posix(text: &str) -> PosixPath {
    PosixPath::from_text(text)
}

fn pair(workspace: &str, path: &str) -> Result<(String, String), String> {
    Ok((workspace.to_string(), path.to_string()))
}

#[test]
fn a_workspace_resolves_to_its_canonical_form() {
    let resolved = resolve_workspace_path(&posix("/w"), Ok(posix("/real")));
    assert_eq!(resolved.map(|p| p.display()), Ok("/real".to_string()));
    let failed = resolve_workspace_path(&posix("/w"), Err("gone".to_string()));
    assert_eq!(
        failed.map(|p| p.display()),
        Err("Failed to resolve workspace path (workspace: /w): gone".to_string())
    );
}

#[test]
fn a_file_in_the_workspace_is_read() {
    let tree = Tree::new(&[("/w", "/w"), ("/w/a.txt", "/w/a.txt")]);
    assert_eq!(tree.read("/w", "a.txt"), Ok("/w/a.txt".to_string()));
    assert_eq!(tree.read("/w", "/w/a.txt"), Ok("/w/a.txt".to_string()));
}

#[test]
fn a_symlink_in_the_workspace_may_be_read_where_it_leads() {
    let tree = Tree::new(&[("/w", "/w"), ("/w/link", "/outside/file")]);
    assert_eq!(tree.read("/w", "link"), Ok("/outside/file".to_string()));
}

#[test]
fn a_path_outside_the_workspace_is_not_read() {
    let tree = Tree::new(&[("/w", "/real"), ("/etc/passwd", "/etc/passwd")]);
    assert_eq!(
        tree.read("/w", "/etc/passwd"),
        Err("Access to paths outside the workspace is not allowed (workspace: /w, resolved_workspace: /real, requested_path: /etc/passwd)".to_string())
    );
}

#[test]
fn a_climbing_path_is_read_only_inside() {
    let tree = Tree::new(&[
        ("/w", "/real"),
        ("/w/d/../a", "/real/a"),
        ("/w/../x", "/x"),
    ]);
    assert_eq!(tree.read("/w", "d/../a"), Ok("/real/a".to_string()));
    assert_eq!(
        tree.read("/w", "../x"),
        Err("Access to paths outside the workspace is not allowed (resolved_workspace: /real, resolved_path: /x)".to_string())
    );
}

#[test]
fn missing_paths_are_not_read() {
    let tree = Tree::new(&[("/w", "/w")]);
    assert_eq!(
        tree.read("/gone", "a"),
        Err("Failed to resolve workspace path (workspace: /gone): not found".to_string())
    );
    assert_eq!(
        tree.read("/w", "a"),
        Err("Failed to resolve file path (workspace: /w, requested_path: a, candidate_path: /w/a): not found".to_string())
    );
    assert_eq!(
        tree.read("/w", "../a"),
        Err("Failed to resolve file path (workspace: /w, requested_path: ../a, candidate_path: /w/../a): not found".to_string())
    );
}

#[test]
fn an_existing_file_is_written() {
    let tree = Tree::new(&[("/w", "/real"), ("/w/a", "/real/a")]);
    assert_eq!(tree.write("/w", "a"), Ok("/real/a".to_string()));
}

#[test]
fn a_new_file_is_written_below_the_nearest_directory() {
    let tree = Tree::new(&[("/w", "/real"), ("/w/d", "/real/d")]);
    assert_eq!(tree.write("/w", "d/e/f.txt"), Ok("/real/d/e/f.txt".to_string()));
    assert_eq!(tree.write("/w", "f.txt"), Ok("/real/f.txt".to_string()));
}

#[test]
fn symlinks_are_not_written() {
    let mut tree = Tree::new(&[("/w", "/w"), ("/w/link", "/w/file")]);
    tree.symlinks.push("/w/link");
    assert_eq!(
        tree.write("/w", "link"),
        Err("Writing to symbolic links is not allowed (workspace: /w, path: /w/link)".to_string())
    );
}

#[test]
fn nothing_is_written_outside_the_workspace() {
    let tree = Tree::new(&[
        ("/w", "/w"),
        ("/w/d", "/outside"),
        ("/w/e", "/outside/e"),
        ("/", "/"),
    ]);
    assert_eq!(
        tree.write("/w", "e"),
        Err("Access to paths outside the workspace is not allowed (resolved_workspace: /w, resolved_path: /outside/e)".to_string())
    );
    assert_eq!(
        tree.write("/w", "d/new"),
        Err("Access to paths outside the workspace is not allowed (resolved_workspace: /w, resolved_path: /outside)".to_string())
    );
    assert_eq!(
        tree.write("/w", "/new"),
        Err("Access to paths outside the workspace is not allowed (resolved_workspace: /w, resolved_path: /)".to_string())
    );
}

#[test]
fn a_missing_path_through_a_parent_is_not_written() {
    let tree = Tree::new(&[("/w", "/w")]);
    assert_eq!(
        tree.write("/w", "gone/../x"),
        Err("Access to paths outside the workspace is not allowed while resolving ancestor (requested_path: /w/gone/../x, current_path: /w/gone/..)".to_string())
    );
}

#[test]
fn errors_of_the_file_system_end_a_write() {
    let mut tree = Tree::new(&[("/w", "/w"), ("/w/k", "/w/k")]);
    tree.blocked.push("/w/b");
    assert_eq!(
        tree.write("/gone", "a"),
        Err("Failed to resolve workspace path (workspace: /gone): not found".to_string())
    );
    assert_eq!(
        tree.write("/w", "b"),
        Err("Failed to inspect file path (workspace: /w, path: /w/b): denied".to_string())
    );
    assert_eq!(
        tree.write("/w", "b/c"),
        Err("Failed to inspect file path while resolving ancestor (requested_path: /w/b/c, current_path: /w/b): denied".to_string())
    );
}

#[test]
fn canonical_forms_that_fail_end_a_write() {
    let resolution = resolve_write_path(&posix("/w"), "a");
    let resolution = match resolution.reply(FsReply::Canonical(posix("/w"))) {
        Step::Continue(next) => next,
        _ => panic!("ended"),
    };
    let resolution = match resolution.reply(FsReply::Present { is_symlink: false }) {
        Step::Continue(next) => next,
        _ => panic!("ended"),
    };
    match resolution.reply(FsReply::CanonicalFailed("loop".to_string())) {
        Step::Refused(error) => assert_eq!(
            error,
            "Failed to resolve file path (workspace: /w, requested_path: a, candidate_path: /w/a): loop"
        ),
        _ => panic!("went on"),
    }

    let mut resolution = resolve_write_path(&posix("/w"), "d/a");
    for reply in [
        FsReply::Canonical(posix("/w")),
        FsReply::Missing,
        FsReply::Missing,
        FsReply::Present { is_symlink: false },
    ] {
        resolution = match resolution.reply(reply) {
            Step::Continue(next) => next,
            _ => panic!("ended"),
        };
    }
    match resolution.reply(FsReply::CanonicalFailed("loop".to_string())) {
        Step::Refused(error) => assert_eq!(
            error,
            "Failed to resolve file path ancestor (workspace: /w, requested_path: d/a, ancestor_path: /w/d): loop"
        ),
        _ => panic!("went on"),
    }
}

#[test]
fn the_nearest_ancestor_keeps_the_missing_names() {
    let tree = Tree::new(&[("/w", "/w")]);
    let mut search = nearest_existing_ancestor(&posix("/w/a/b"));
    let ancestor = loop {
        let reply = tree.answer(search.request());
        match search.reply(reply) {
            Step::Continue(next) => search = next,
            Step::Found(ancestor) => break ancestor,
            Step::Refused(error) => panic!("{}", error),
        }
    };
    assert_eq!(ancestor.path.display(), "/w");
    let missing: Vec<String> = ancestor.missing.iter().map(|m| m.display()).collect();
    assert_eq!(missing, ["b", "a"]);
    assert_eq!(join_missing(posix("/r"), &ancestor.missing).display(), "/r/a/b");
}

#[test]
fn a_path_without_an_existing_ancestor_is_refused() {
    let tree = Tree::new(&[("/w", "/w")]);
    assert_eq!(
        tree.write("/w", "/x"),
        Err("Access to paths outside the workspace is not allowed while resolving ancestor (requested_path: /x, current_path: /)".to_string())
    );
}

#[test]
fn the_first_workspace_that_serves_a_read_wins() {
    let tree = Tree::new(&[
        ("/a", "/a"),
        ("/b", "/b"),
        ("/c", "/c"),
        ("/b/f", "/b/f"),
        ("/c/f", "/c/f"),
    ]);
    assert_eq!(tree.read_any(&["/a", "/b", "/c"], "f"), pair("/b", "/b/f"));
    assert_eq!(
        tree.read_any(&["/a", "/gone"], "f"),
        Err("Path is not accessible from any configured workspace (requested_path: f, workspaces: [/a, /gone]); errors: /a: Failed to resolve file path (workspace: /a, requested_path: f, candidate_path: /a/f): not found; /gone: Failed to resolve workspace path (workspace: /gone): not found".to_string())
    );
    assert_eq!(
        tree.read_any(&[], "f"),
        Err("Path is not accessible from any configured workspace (requested_path: f, workspaces: [<none>])".to_string())
    );
}

#[test]
fn an_existing_file_is_written_where_it_is() {
    let tree = Tree::new(&[("/a", "/a"), ("/b", "/b"), ("/b/f", "/b/f")]);
    assert_eq!(tree.write_any(&["/a", "/b"], "f"), pair("/b", "/b/f"));
    assert_eq!(tree.write_any(&["/a", "/b"], "new"), pair("/a", "/a/new"));
    assert_eq!(tree.write_any(&["/a", "/b"], "/b/f"), pair("/b", "/b/f"));
}

#[test]
fn an_existing_file_that_is_refused_is_not_written_elsewhere() {
    let mut tree = Tree::new(&[("/a", "/a"), ("/b", "/b"), ("/a/f", "/b/f"), ("/b/f", "/b/f")]);
    tree.symlinks.push("/a/f");
    assert_eq!(
        tree.write_any(&["/a", "/b"], "f"),
        Err("Writing to symbolic links is not allowed (workspace: /a, path: /a/f)".to_string())
    );
}

#[test]
fn a_write_without_a_workspace_lists_the_errors() {
    let mut tree = Tree::new(&[("/a", "/a"), ("/x", "/x"), ("/x/f", "/x/f")]);
    assert_eq!(
        tree.write_any(&["/a"], "/x/f"),
        Err("Path is not accessible from any configured workspace (requested_path: /x/f, workspaces: [/a]); errors: /a: Access to paths outside the workspace is not allowed (resolved_workspace: /a, resolved_path: /x/f)".to_string())
    );
    tree.blocked.push("/a/g");
    assert_eq!(
        tree.write_any(&["/a"], "g"),
        Err("Failed to inspect file path (workspace: /a, requested_path: g, candidate_path: /a/g): denied".to_string())
    );
    assert_eq!(
        tree.write_any(&[], "g"),
        Err("Path is not accessible from any configured workspace (requested_path: g, workspaces: [<none>])".to_string())
    );
}

#[test]
fn an_answer_to_another_question_is_no_success() {
    let resolution = resolve_read_path(&posix("/w"), "a");
    match resolution.reply(FsReply::Missing) {
        Step::Refused(error) => {
            assert_eq!(error, "Failed to resolve workspace path (workspace: /w): ")
        }
        _ => panic!("went on"),
    }
}
