//! What the errors and messages speak of.
use crate::atomic;
use crate::command;
use crate::guard;
use crate::resolve;
use crate::resolve_write;
use crate::search;
use crate::text;
use crate::workspace;
use vstd::prelude::*;

verus! {

/// True when the parts occur in the text in order, none within another.
pub open spec fn mentions(all: Seq<char>, parts: Seq<Seq<char>>) -> bool
    decreases parts.len(),
{
    parts.len() == 0 || exists|at: int| #[trigger]
        mentions_at(all, parts[0], at) && mentions(
            all.skip(at + parts[0].len()),
            parts.drop_first(),
        )
}

/// True when the part occurs in the text at the place.
pub open spec fn mentions_at(all: Seq<char>, part: Seq<char>, at: int) -> bool {
    &&& 0 <= at
    &&& at + part.len() <= all.len()
    &&& all.subrange(at, at + part.len()) == part
}

proof fn lemma_mention(
    lead: Seq<char>,
    part: Seq<char>,
    rest: Seq<char>,
    parts: Seq<Seq<char>>,
)
    requires
        mentions(rest, parts),
    ensures
        mentions(lead + part + rest, seq![part] + parts),
{
    let all = lead + part + rest;
    let every = seq![part] + parts;
    assert(every.drop_first() == parts);
    assert(every[0] == part);
    assert(all.subrange(lead.len() as int, (lead.len() + part.len()) as int) == part);
    assert(all.skip((lead.len() + part.len()) as int) == rest);
    assert(mentions_at(all, every[0], lead.len() as int));
}

proof fn lemma_one(lead: Seq<char>, a: Seq<char>, rest: Seq<char>)
    ensures
        mentions(lead + a + rest, seq![a]),
{
    let none = Seq::<Seq<char>>::empty();
    lemma_mention(lead, a, rest, none);
    assert(seq![a] + none == seq![a]);
}

proof fn lemma_two(lead: Seq<char>, a: Seq<char>, between: Seq<char>, b: Seq<char>, rest: Seq<char>)
    ensures
        mentions(lead + a + between + b + rest, seq![a, b]),
{
    lemma_one(between, b, rest);
    lemma_mention(lead, a, between + b + rest, seq![b]);
    assert(lead + a + (between + b + rest) == lead + a + between + b + rest);
    assert(seq![a] + seq![b] == seq![a, b]);
}

proof fn lemma_three(
    lead: Seq<char>,
    a: Seq<char>,
    ab: Seq<char>,
    b: Seq<char>,
    bc: Seq<char>,
    c: Seq<char>,
    rest: Seq<char>,
)
    ensures
        mentions(lead + a + ab + b + bc + c + rest, seq![a, b, c]),
{
    lemma_two(ab, b, bc, c, rest);
    lemma_mention(lead, a, ab + b + bc + c + rest, seq![b, c]);
    assert(lead + a + (ab + b + bc + c + rest) == lead + a + ab + b + bc + c + rest);
    assert(seq![a] + seq![b, c] == seq![a, b, c]);
}

proof fn lemma_four(
    lead: Seq<char>,
    a: Seq<char>,
    ab: Seq<char>,
    b: Seq<char>,
    bc: Seq<char>,
    c: Seq<char>,
    cd: Seq<char>,
    d: Seq<char>,
)
    ensures
        mentions(lead + a + ab + b + bc + c + cd + d, seq![a, b, c, d]),
{
    let none = Seq::<char>::empty();
    lemma_three(ab, b, bc, c, cd, d, none);
    assert(ab + b + bc + c + cd + d + none == ab + b + bc + c + cd + d);
    lemma_mention(lead, a, ab + b + bc + c + cd + d, seq![b, c, d]);
    assert(lead + a + (ab + b + bc + c + cd + d) == lead + a + ab + b + bc + c + cd + d);
    assert(seq![a] + seq![b, c, d] == seq![a, b, c, d]);
}

/// Every error of a resolution names the paths that it is about, in order, and the reason
/// behind them where there is one.
pub proof fn law_resolution_errors_name_their_paths(
    workspace: Seq<u8>,
    resolved: Seq<u8>,
    path: Seq<u8>,
    user_path: Seq<char>,
    reason: Seq<char>,
)
    ensures
        ({
            let w = text::as_text(workspace);
            let r = text::as_text(resolved);
            let p = text::as_text(path);
            &&& mentions(resolve::workspace_error(workspace, reason), seq![w, reason])
            &&& mentions(
                resolve::resolve_error(workspace, user_path, path, reason),
                seq![w, user_path, p, reason],
            )
            &&& mentions(workspace::outside_error(resolved, path), seq![r, p])
            &&& mentions(
                workspace::outside_namespace_error(workspace, resolved, path),
                seq![w, r, p],
            )
            &&& mentions(resolve_write::ancestor_error(path, resolved), seq![p, r])
            &&& mentions(
                resolve_write::ancestor_inspect_error(path, resolved, reason),
                seq![p, r, reason],
            )
            &&& mentions(resolve_write::symlink_error(workspace, path), seq![w, p])
            &&& mentions(resolve_write::inspect_error(workspace, path, reason), seq![w, p, reason])
            &&& mentions(
                resolve_write::ancestor_resolve_error(workspace, user_path, path, reason),
                seq![w, user_path, p, reason],
            )
            &&& mentions(
                search::probe_error(workspace, user_path, path, reason),
                seq![w, user_path, p, reason],
            )
            &&& mentions(search::listed_error(workspace, reason), seq![w, reason])
        }),
{
    let w = text::as_text(workspace);
    let r = text::as_text(resolved);
    let p = text::as_text(path);
    let none = Seq::<char>::empty();
    lemma_two("Failed to resolve workspace path (workspace: "@, w, "): "@, reason, none);
    assert(resolve::workspace_error(workspace, reason) + none == resolve::workspace_error(
        workspace,
        reason,
    ));
    lemma_four(
        "Failed to resolve file path (workspace: "@,
        w,
        ", requested_path: "@,
        user_path,
        ", candidate_path: "@,
        p,
        "): "@,
        reason,
    );
    lemma_two(
        "Access to paths outside the workspace is not allowed (resolved_workspace: "@,
        r,
        ", resolved_path: "@,
        p,
        ")"@,
    );
    lemma_three(
        "Access to paths outside the workspace is not allowed (workspace: "@,
        w,
        ", resolved_workspace: "@,
        r,
        ", requested_path: "@,
        p,
        ")"@,
    );
    lemma_two(
        "Access to paths outside the workspace is not allowed while resolving ancestor (requested_path: "@,
        p,
        ", current_path: "@,
        r,
        ")"@,
    );
    lemma_three(
        "Failed to inspect file path while resolving ancestor (requested_path: "@,
        p,
        ", current_path: "@,
        r,
        "): "@,
        reason,
        none,
    );
    assert(resolve_write::ancestor_inspect_error(path, resolved, reason) + none
        == resolve_write::ancestor_inspect_error(path, resolved, reason));
    lemma_two(
        "Writing to symbolic links is not allowed (workspace: "@,
        w,
        ", path: "@,
        p,
        ")"@,
    );
    lemma_three(
        "Failed to inspect file path (workspace: "@,
        w,
        ", path: "@,
        p,
        "): "@,
        reason,
        none,
    );
    assert(resolve_write::inspect_error(workspace, path, reason) + none
        == resolve_write::inspect_error(workspace, path, reason));
    lemma_four(
        "Failed to resolve file path ancestor (workspace: "@,
        w,
        ", requested_path: "@,
        user_path,
        ", ancestor_path: "@,
        p,
        "): "@,
        reason,
    );
    lemma_four(
        "Failed to inspect file path (workspace: "@,
        w,
        ", requested_path: "@,
        user_path,
        ", candidate_path: "@,
        p,
        "): "@,
        reason,
    );
    lemma_two(none, w, ": "@, reason, none);
    assert(none + w + ": "@ + reason + none == search::listed_error(workspace, reason));
}

/// Every error of a replacement and of a file that is refused names the paths, the sizes
/// and the reasons that it is about, in order.
pub proof fn law_file_errors_name_their_files(
    what: Seq<char>,
    target: Seq<u8>,
    temp: Seq<u8>,
    reason: Seq<char>,
    size: u64,
    limit: u64,
)
    ensures
        ({
            let t = text::as_text(target);
            let p = text::as_text(temp);
            &&& mentions(atomic::no_parent_error(target), seq![t])
            &&& mentions(atomic::no_name_error(target), seq![t])
            &&& mentions(atomic::no_unique_name_error(target), seq![t])
            &&& mentions(atomic::temp_error(what, target, temp, reason), seq![what, t, p, reason])
            &&& mentions(atomic::replace_error(temp, target, reason), seq![p, t, reason])
            &&& mentions(guard::hard_link_message(what, target), seq![what, t])
            &&& mentions(guard::not_regular_message(target), seq![t])
            &&& mentions(
                guard::too_large_message(size, limit, target),
                seq![text::decimal(size as nat), text::decimal(limit as nat), t],
            )
        }),
{
    let t = text::as_text(target);
    let p = text::as_text(temp);
    let none = Seq::<char>::empty();
    lemma_one(
        "Failed to determine parent directory for write target (target_path: "@,
        t,
        ")"@,
    );
    lemma_one("Failed to determine file name for write target (target_path: "@, t, ")"@);
    lemma_one(
        "Failed to allocate unique temporary file for atomic write (target_path: "@,
        t,
        ")"@,
    );
    lemma_four(none, what, " (target_path: "@, t, ", temp_path: "@, p, "): "@, reason);
    assert(none + what == what);
    lemma_three(
        "Failed to atomically replace file (temp_path: "@,
        p,
        ", target_path: "@,
        t,
        "): "@,
        reason,
        none,
    );
    assert(atomic::replace_error(temp, target, reason) + none == atomic::replace_error(
        temp,
        target,
        reason,
    ));
    lemma_two(none, what, " (path: "@, t, ")"@);
    lemma_one("Path does not point to a regular file (path: "@, t, ")"@);
    lemma_three(
        "File size "@,
        text::decimal(size as nat),
        " exceeds maximum allowed size of "@,
        text::decimal(limit as nat),
        " bytes (path: "@,
        t,
        ")"@,
    );
}

/// The message of a started task ends with its id.
pub proof fn law_started_message_names_the_task(task_id: Seq<char>)
    ensures
        task_id.is_suffix_of(command::started_message(task_id)),
{
    let all = command::started_message(task_id);
    assert(task_id == all.subrange(all.len() - task_id.len(), all.len() as int));
}

} // verus!
