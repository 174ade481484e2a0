//! What holds of every atomic replacement.
use crate::atomic;
use crate::atomic::{
    AtomicModel, AtomicWrite, TempFileWrite, TempModel, TempPhase, WriteReply, WriteRequest,
};
use crate::path;
use crate::resolve::Step;
use crate::text;
use vstd::prelude::*;
use vstd::string::*;
use vstd::utf8::*;

verus! {

proof fn lemma_marker()
    ensures
        encode_utf8(".anda-tmp-"@).len() == 10,
        !encode_utf8(".anda-tmp-"@).contains(path::SEPARATOR),
{
    reveal_strlit(".anda-tmp-");
    let marker = ".anda-tmp-"@;
    assert(is_ascii_chars(marker));
    is_ascii_chars_encode_utf8(marker);
    assert forall|i: int| 0 <= i < 10 implies encode_utf8(marker)[i] != path::SEPARATOR by {
        assert(marker[i] as u8 == encode_utf8(marker)[i]);
    }
}

/// The name of a temporary file is a name, and longer than the one that it is made from.
pub proof fn lemma_temp_name(file_name: Seq<u8>, nonce: u64)
    requires
        path::is_name(file_name),
    ensures
        path::is_name(atomic::temp_name(file_name, nonce)),
        atomic::temp_name(file_name, nonce).len() == file_name.len() + 27,
{
    lemma_marker();
    text::lemma_hex_padded(nonce as nat, atomic::NONCE_DIGITS as nat);
    let name = atomic::temp_name(file_name, nonce);
    let marker = encode_utf8(".anda-tmp-"@);
    let digits = text::hex_padded(nonce as nat, atomic::NONCE_DIGITS as nat);
    assert forall|i: int| 0 <= i < name.len() implies name[i] != path::SEPARATOR by {
        if 1 <= i < 1 + file_name.len() {
            assert(name[i] == file_name[i - 1]);
            assert(file_name.contains(file_name[i - 1]));
        } else if 1 + file_name.len() <= i < 11 + file_name.len() {
            let k = i - 1 - file_name.len();
            assert(name[i] == marker[k]);
            assert(marker.contains(marker[k]));
        } else if i >= 11 + file_name.len() {
            assert(name[i] == digits[i - 11 - file_name.len()]);
        }
    }
}

/// A temporary file stands in the directory of its target, under a name of its own.
pub proof fn law_temp_file_stands_beside_target(target: Seq<u8>, nonce: u64)
    ensures
        path::file_name(target) is Some <==> atomic::temp_path(target, nonce) is Ok,
        atomic::temp_path(target, nonce) matches Ok(temp) ==> {
            let name = atomic::temp_name(path::file_name(target)->0, nonce);
            &&& path::components(temp) == path::components(target).drop_last().push(name)
            &&& path::file_name(temp) == Some(name)
            &&& !path::same_path(temp, target)
            &&& temp != target
        },
{
    path::law_named_path_has_parent(target);
    path::law_parent_drops_last(target);
    if let Ok(temp) = atomic::temp_path(target, nonce) {
        let file_name = path::file_name(target)->0;
        let name = atomic::temp_name(file_name, nonce);
        lemma_temp_name(file_name, nonce);
        path::law_join_name(path::parent(target)->0, name);
        assert(path::components(temp).last() == name);
        assert(path::components(target).last() == file_name);
        assert(name.len() != file_name.len());
    }
}

/// The name of a temporary file is hidden, goes on with the whole name of its target, and
/// ends with digits that give the number back.
pub proof fn law_temp_name(target: Seq<u8>, nonce: u64)
    ensures
        atomic::temp_path(target, nonce) matches Ok(temp) ==> {
            let name = path::components(temp).last();
            let file_name = path::components(target).last();
            &&& name.len() == file_name.len() + 27
            &&& name[0] == 46u8
            &&& name.subrange(1, file_name.len() + 1int) == file_name
            &&& crate::text_laws::hex_value(name.skip(file_name.len() + 11int)) == nonce
        },
{
    law_temp_file_stands_beside_target(target, nonce);
    if let Ok(temp) = atomic::temp_path(target, nonce) {
        let file_name = path::file_name(target)->0;
        let name = atomic::temp_name(file_name, nonce);
        let digits = text::hex_padded(nonce as nat, atomic::NONCE_DIGITS as nat);
        lemma_marker();
        text::lemma_hex_padded(nonce as nat, atomic::NONCE_DIGITS as nat);
        path::law_named_path_has_parent(target);
        path::law_parent_drops_last(target);
        lemma_temp_name(file_name, nonce);
        path::law_join_name(path::parent(target)->0, name);
        assert(path::components(temp).last() == name);
        assert(name.subrange(1, file_name.len() + 1int) == file_name);
        assert(name.skip(file_name.len() + 11int) == digits);
        assert(text::power(16, 16) == 0x1_0000_0000_0000_0000) by {
            reveal_with_fuel(text::power, 17);
        }
        crate::text_laws::law_hex_digits(nonce as nat, 16);
    }
}

/// Different random numbers give different temporary files.
pub proof fn law_temp_files_differ(target: Seq<u8>, m: u64, n: u64)
    requires
        m != n,
        path::file_name(target) is Some,
    ensures
        atomic::temp_path(target, m) matches Ok(a) && (atomic::temp_path(target, n) matches Ok(b)
            && !path::same_path(a, b)),
{
    law_temp_file_stands_beside_target(target, m);
    law_temp_file_stands_beside_target(target, n);
    let file_name = path::file_name(target)->0;
    let a = atomic::temp_path(target, m)->Ok_0;
    let b = atomic::temp_path(target, n)->Ok_0;
    let width = atomic::NONCE_DIGITS as nat;
    if path::same_path(a, b) {
        let name = atomic::temp_name(file_name, m);
        assert(path::components(a).last() == name);
        assert(path::components(b).last() == atomic::temp_name(file_name, n));
        lemma_marker();
        text::lemma_hex_padded(m as nat, width);
        text::lemma_hex_padded(n as nat, width);
        let start = file_name.len() + 11;
        assert(name.skip(start as int) == text::hex_padded(m as nat, width));
        assert(atomic::temp_name(file_name, n).skip(start as int) == text::hex_padded(
            n as nat,
            width,
        ));
        assert(text::power(16, 16) == 0x1_0000_0000_0000_0000) by {
            reveal_with_fuel(text::power, 17);
        }
        text::lemma_hex_padded_injective(m as nat, n as nat, width);
    }
}

/// The target of a replacement.
pub open spec fn target_of(write: AtomicModel) -> Seq<u8> {
    match write {
        AtomicWrite::Preparing(preparation) => preparation.target,
        AtomicWrite::Committing { target, .. } => target,
        AtomicWrite::Discarding { target, .. } => target,
    }
}

/// The temporary file of a replacement.
pub open spec fn temp_of(write: AtomicModel) -> Seq<u8> {
    match write {
        AtomicWrite::Preparing(preparation) => preparation.temp,
        AtomicWrite::Committing { temp, .. } => temp,
        AtomicWrite::Discarding { temp, .. } => temp,
    }
}

/// True when the temporary file is to get the permissions of the file that it replaces.
pub open spec fn sets_permissions(write: AtomicModel) -> bool {
    match write {
        AtomicWrite::Preparing(preparation) => preparation.sets_permissions,
        _ => false,
    }
}

/// True when the temporary file has been created.
pub open spec fn temp_exists(write: AtomicModel) -> bool {
    match write {
        AtomicWrite::Preparing(preparation) => !(preparation.phase is Creating),
        _ => true,
    }
}

/// True when the replacement was asked to set permissions and has not come to that yet.
pub open spec fn asked_to_permit(write: AtomicModel) -> bool {
    write matches AtomicWrite::Preparing(preparation) && preparation.sets_permissions
}

/// What holds of a replacement at all times: its temporary file is one of its target.
pub open spec fn atomic_invariant(write: AtomicModel) -> bool {
    exists|nonce: u64|
        #[trigger] atomic::temp_path(target_of(write), nonce) == Ok::<Seq<u8>, Seq<char>>(
            temp_of(write),
        )
}

/// A replacement starts and stays within what holds of it, and keeps its target.
pub proof fn law_atomic_write_keeps_its_target(
    write: AtomicModel,
    reply: WriteReply<Seq<char>>,
    nonce: u64,
)
    requires
        atomic_invariant(write),
    ensures
        write.after(reply, nonce) matches Step::Continue(next) ==> atomic_invariant(next)
            && target_of(next) == target_of(write),
{
    let known = choose|known: u64|
        #[trigger] atomic::temp_path(target_of(write), known) == Ok::<Seq<u8>, Seq<char>>(
            temp_of(write),
        );
    if let Step::Continue(next) = write.after(reply, nonce) {
        if temp_of(next) == temp_of(write) {
            assert(atomic::temp_path(target_of(next), known) == Ok::<Seq<u8>, Seq<char>>(
                temp_of(next),
            ));
        } else {
            assert(atomic::temp_path(target_of(next), nonce) == Ok::<Seq<u8>, Seq<char>>(
                temp_of(next),
            ));
        }
    }
}

/// The start of a replacement is within what holds of it. It is refused exactly where
/// the target has no name.
pub proof fn law_atomic_write_start(target: Seq<u8>, sets_permissions: bool, nonce: u64)
    ensures
        match AtomicWrite::start(target, sets_permissions, nonce) {
            Step::Continue(write) => {
                &&& path::file_name(target) is Some
                &&& atomic_invariant(write)
                &&& target_of(write) == target
                &&& !temp_exists(write)
                &&& attempts_left(write) == 16
                &&& asked_to_permit(write) == sets_permissions
                &&& write.asks() == WriteRequest::CreateNew(temp_of(write))
            },
            Step::Found(_) => false,
            Step::Refused(_) => path::file_name(target) is None,
        },
{
    law_temp_file_stands_beside_target(target, nonce);
    if let Step::Continue(write) = AtomicWrite::start(target, sets_permissions, nonce) {
        assert(atomic::temp_path(target_of(write), nonce) == Ok::<Seq<u8>, Seq<char>>(
            temp_of(write),
        ));
    }
}

/// The target is touched by nothing but the last step, which renames the temporary file
/// to it: every other step is about the temporary file, which is another file.
pub proof fn law_target_is_only_renamed_to(write: AtomicModel)
    requires
        atomic_invariant(write),
    ensures
        !path::same_path(temp_of(write), target_of(write)),
        match write.asks() {
            WriteRequest::CreateNew(path) => path == temp_of(write),
            WriteRequest::WriteAll(path) => path == temp_of(write),
            WriteRequest::SetPermissions(path) => path == temp_of(write),
            WriteRequest::Sync(path) => path == temp_of(write),
            WriteRequest::Remove(path) => path == temp_of(write),
            WriteRequest::Rename { from, to } => from == temp_of(write) && to == target_of(write),
        },
{
    let nonce = choose|nonce: u64|
        #[trigger] atomic::temp_path(target_of(write), nonce) == Ok::<Seq<u8>, Seq<char>>(
            temp_of(write),
        );
    law_temp_file_stands_beside_target(target_of(write), nonce);
}

/// A replacement succeeds exactly when its renaming is done, and a renaming is asked for
/// only once the temporary file has been brought to the disk.
pub proof fn law_only_a_synced_file_is_renamed(
    write: AtomicModel,
    reply: WriteReply<Seq<char>>,
    nonce: u64,
)
    ensures
        write.after(reply, nonce) is Found <==> write.asks() is Rename && reply is Done,
        write.after(reply, nonce) matches Step::Continue(next) ==> (next.asks() is Rename
            ==> write.asks() == WriteRequest::Sync(temp_of(next)) && reply is Done),
{
}

/// The steps of a preparation come in order: the data is written to a file that was
/// created, then it gets its permissions where there are some, then it is brought to the
/// disk.
pub proof fn law_preparation_order(
    write: AtomicModel,
    reply: WriteReply<Seq<char>>,
    nonce: u64,
)
    ensures
        write.after(reply, nonce) matches Step::Continue(next) ==> {
            &&& next.asks() is WriteAll ==> write.asks() == WriteRequest::CreateNew(temp_of(next))
                && reply is Done
            &&& next.asks() is SetPermissions ==> write.asks() == WriteRequest::WriteAll(
                temp_of(next),
            ) && reply is Done
            &&& next.asks() is Sync ==> reply is Done && (write.asks()
                == WriteRequest::SetPermissions(temp_of(next)) || (write.asks()
                == WriteRequest::WriteAll(temp_of(next)) && !sets_permissions(write)))
        },
{
}

/// Permissions are set exactly where that was asked for: right after the data has been
/// written, and before the file is brought to the disk.
pub proof fn law_permissions_are_set_where_asked(
    write: AtomicModel,
    reply: WriteReply<Seq<char>>,
    nonce: u64,
)
    ensures
        write.asks() is WriteAll && reply is Done ==> (write.after(reply, nonce)
            matches Step::Continue(next) && (if asked_to_permit(write) {
            next.asks() == WriteRequest::SetPermissions(temp_of(write))
        } else {
            next.asks() == WriteRequest::Sync(temp_of(write))
        })),
        write.asks() is SetPermissions && reply is Done ==> (write.after(reply, nonce)
            matches Step::Continue(next) && next.asks() == WriteRequest::Sync(temp_of(write))),
        write.asks() is CreateNew && reply is Done ==> (write.after(reply, nonce)
            matches Step::Continue(next) && next.asks() == WriteRequest::WriteAll(temp_of(write))),
        write.asks() is Sync && reply is Done ==> (write.after(reply, nonce)
            matches Step::Continue(next) && next.asks() == (WriteRequest::Rename {
            from: temp_of(write),
            to: target_of(write),
        })),
        write.after(reply, nonce) matches Step::Continue(next) ==> (next is Preparing
            ==> asked_to_permit(next) == asked_to_permit(write)),
{
}

/// A name that is taken is followed by another one, which the number gives, as long as
/// attempts are left.
pub proof fn law_taken_name_is_followed_by_another(
    write: AtomicModel,
    nonce: u64,
    temp: Seq<u8>,
)
    requires
        write.asks() is CreateNew,
        attempts_left(write) > 1,
        atomic::temp_path(target_of(write), nonce) == Ok::<Seq<u8>, Seq<char>>(temp),
    ensures
        write.after(WriteReply::AlreadyExists, nonce) matches Step::Continue(next) && {
            &&& next.asks() == WriteRequest::CreateNew(temp)
            &&& target_of(next) == target_of(write)
            &&& attempts_left(next) == attempts_left(write) - 1
        },
{
}

/// Why a replacement is refused, where its last step before the removal of its file failed.
pub open spec fn refusal(write: AtomicModel) -> Seq<char> {
    match write {
        AtomicWrite::Preparing(
            TempFileWrite { phase: TempPhase::Discarding { error }, .. },
        ) => error,
        AtomicWrite::Discarding { error, .. } => error,
        _ => Seq::empty(),
    }
}

/// A replacement that is refused tells why: its error ends with the reason that the file
/// system gave, and is kept while the temporary file is removed, however that goes.
pub proof fn law_refused_replacement_tells_why(
    write: AtomicModel,
    reason: Seq<char>,
    reply: WriteReply<Seq<char>>,
    nonce: u64,
)
    ensures
        ({
            let failed = write.after(WriteReply::Failed(reason), nonce);
            &&& write.asks() is CreateNew ==> (failed matches Step::Refused(error)
                && reason.is_suffix_of(error))
            &&& !(write.asks() is CreateNew) && !(write.asks() is Remove) ==> (failed
                matches Step::Continue(next) && reason.is_suffix_of(refusal(next)) && next.asks()
                == WriteRequest::Remove(temp_of(write)))
        }),
        write.asks() is Remove ==> write.after(reply, nonce) == Step::<
            AtomicModel,
            (),
            Seq<char>,
        >::Refused(refusal(write)),
{
    if let Step::Refused(error) = write.after(WriteReply::Failed(reason), nonce) {
        if error.len() >= reason.len() {
            assert(error.subrange(error.len() - reason.len(), error.len() as int) == reason
                || write.asks() is Remove);
        }
    }
    if let Step::Continue(next) = write.after(WriteReply::Failed(reason), nonce) {
        let error = refusal(next);
        if error.len() >= reason.len() {
            assert(error.subrange(error.len() - reason.len(), error.len() as int) == reason);
        }
    }
}

/// A replacement that fails after its temporary file was created has asked for the file
/// to be removed right before, and every failure on the way leads to that.
pub proof fn law_failed_write_removes_its_file(
    write: AtomicModel,
    reply: WriteReply<Seq<char>>,
    nonce: u64,
)
    requires
        temp_exists(write),
    ensures
        write.after(reply, nonce) is Refused <==> write.asks() is Remove,
        !(write.asks() is Remove) && !(reply is Done) ==> (write.after(reply, nonce)
            matches Step::Continue(next) && next.asks() == WriteRequest::Remove(temp_of(write))),
        write.after(reply, nonce) matches Step::Continue(next) ==> temp_exists(next),
{
}

/// How many more temporary files may be asked for.
pub open spec fn attempts_left(write: AtomicModel) -> int {
    match write {
        AtomicWrite::Preparing(
            TempFileWrite { phase: TempPhase::Creating { retries }, .. },
        ) => retries + 1,
        _ => 0,
    }
}

/// Every name that is taken already uses up one attempt, and where none is left the
/// replacement is refused.
pub proof fn law_attempts_run_out(
    write: AtomicModel,
    reply: WriteReply<Seq<char>>,
    nonce: u64,
)
    ensures
        write.after(reply, nonce) matches Step::Continue(next) ==> (next.asks() is CreateNew
            ==> attempts_left(next) == attempts_left(write) - 1 && reply is AlreadyExists),
        attempts_left(write) == 1 && reply is AlreadyExists ==> write.after(reply, nonce) == Step::<
            AtomicModel,
            (),
            Seq<char>,
        >::Refused(atomic::no_unique_name_error(target_of(write))),
{
}

/// The files after a request has been answered so. A write that fails leaves `partial`
/// in its file; anything else that fails changes nothing.
pub open spec fn files_after(
    files: Map<Seq<u8>, Seq<u8>>,
    request: WriteRequest<Seq<u8>>,
    reply: WriteReply<Seq<char>>,
    data: Seq<u8>,
    partial: Seq<u8>,
) -> Map<Seq<u8>, Seq<u8>> {
    match request {
        WriteRequest::CreateNew(path) => if reply is Done {
            files.insert(path, Seq::empty())
        } else {
            files
        },
        WriteRequest::WriteAll(path) => if reply is Done {
            files.insert(path, data)
        } else {
            files.insert(path, partial)
        },
        WriteRequest::SetPermissions(_) => files,
        WriteRequest::Sync(_) => files,
        WriteRequest::Remove(path) => if reply is Done {
            files.remove(path)
        } else {
            files
        },
        WriteRequest::Rename { from, to } => if reply is Done {
            files.insert(to, files[from]).remove(from)
        } else {
            files
        },
    }
}

/// What a file holds, where it exists.
pub open spec fn content(files: Map<Seq<u8>, Seq<u8>>, path: Seq<u8>) -> Option<Seq<u8>> {
    if files.contains_key(path) {
        Some(files[path])
    } else {
        None
    }
}

/// What holds of the files while a replacement runs: the target is as it was before, and
/// from the moment when the data has been written, the temporary file holds it.
pub open spec fn files_invariant(
    write: AtomicModel,
    files: Map<Seq<u8>, Seq<u8>>,
    before: Option<Seq<u8>>,
    data: Seq<u8>,
) -> bool {
    &&& content(files, target_of(write)) == before
    &&& (write.asks() is SetPermissions || write.asks() is Sync || write.asks() is Rename)
        ==> content(files, temp_of(write)) == Some(data)
}

/// At every step of a replacement the target holds either what it held before or all of
/// the data, never a part of it. It holds the data exactly when the replacement has
/// succeeded, and then the temporary file is gone.
pub proof fn law_target_holds_old_or_new(
    write: AtomicModel,
    reply: WriteReply<Seq<char>>,
    nonce: u64,
    files: Map<Seq<u8>, Seq<u8>>,
    before: Option<Seq<u8>>,
    data: Seq<u8>,
    partial: Seq<u8>,
)
    requires
        atomic_invariant(write),
        files_invariant(write, files, before, data),
    ensures
        ({
            let after = files_after(files, write.asks(), reply, data, partial);
            match write.after(reply, nonce) {
                Step::Continue(next) => files_invariant(next, after, before, data),
                Step::Found(_) => content(after, target_of(write)) == Some(data) && content(
                    after,
                    temp_of(write),
                ) is None,
                Step::Refused(_) => content(after, target_of(write)) == before && (
                write.asks() is Remove && reply is Done ==> content(after, temp_of(write)) is None),
            }
        }),
{
    law_target_is_only_renamed_to(write);
    law_atomic_write_keeps_its_target(write, reply, nonce);
    assert(temp_of(write) != target_of(write));
}

/// One answer of the file system, with the number for the next name and with what a write
/// that fails leaves in its file.
pub struct Answer {
    pub reply: WriteReply<Seq<char>>,
    pub nonce: u64,
    pub partial: Seq<u8>,
}

/// How a replacement goes on with one answer after the other, until it has ended or the
/// answers have run out, and the files that it leaves.
pub open spec fn replaced(
    step: Step<AtomicModel, (), Seq<char>>,
    files: Map<Seq<u8>, Seq<u8>>,
    answers: Seq<Answer>,
    data: Seq<u8>,
) -> (Step<AtomicModel, (), Seq<char>>, Map<Seq<u8>, Seq<u8>>)
    decreases answers.len(),
{
    match step {
        Step::Continue(write) if answers.len() > 0 => {
            let answer = answers[0];
            replaced(
                write.after(answer.reply, answer.nonce),
                files_after(files, write.asks(), answer.reply, data, answer.partial),
                answers.skip(1),
                data,
            )
        },
        _ => (step, files),
    }
}

/// Wherever a replacement stops, its target holds all of the data where it has succeeded,
/// and otherwise what it held before.
pub proof fn law_replacement_is_atomic(
    target: Seq<u8>,
    sets_permissions: bool,
    nonce: u64,
    files: Map<Seq<u8>, Seq<u8>>,
    answers: Seq<Answer>,
    data: Seq<u8>,
)
    ensures
        ({
            let start = AtomicWrite::start(target, sets_permissions, nonce);
            let (end, left) = replaced(start, files, answers, data);
            content(left, target) == if end is Found {
                Some(data)
            } else {
                content(files, target)
            }
        }),
{
    law_atomic_write_start(target, sets_permissions, nonce);
    if let Step::Continue(write) = AtomicWrite::start(target, sets_permissions, nonce) {
        lemma_replaced(write, files, answers, content(files, target), data);
    }
}

proof fn lemma_replaced(
    write: AtomicModel,
    files: Map<Seq<u8>, Seq<u8>>,
    answers: Seq<Answer>,
    before: Option<Seq<u8>>,
    data: Seq<u8>,
)
    requires
        atomic_invariant(write),
        files_invariant(write, files, before, data),
    ensures
        ({
            let (end, left) = replaced(Step::Continue(write), files, answers, data);
            content(left, target_of(write)) == if end is Found {
                Some(data)
            } else {
                before
            }
        }),
    decreases answers.len(),
{
    reveal_with_fuel(replaced, 2);
    if answers.len() > 0 {
        let answer = answers[0];
        let next_files = files_after(files, write.asks(), answer.reply, data, answer.partial);
        law_target_holds_old_or_new(
            write,
            answer.reply,
            answer.nonce,
            files,
            before,
            data,
            answer.partial,
        );
        law_atomic_write_keeps_its_target(write, answer.reply, answer.nonce);
        if let Step::Continue(next) = write.after(answer.reply, answer.nonce) {
            lemma_replaced(next, next_files, answers.skip(1), before, data);
        }
    }
}

/// True when the answers are those of a file system that creates a file only where there
/// is none, and that removes what it is asked to remove.
pub open spec fn orderly(
    step: Step<AtomicModel, (), Seq<char>>,
    files: Map<Seq<u8>, Seq<u8>>,
    answers: Seq<Answer>,
    data: Seq<u8>,
) -> bool
    decreases answers.len(),
{
    match step {
        Step::Continue(write) if answers.len() > 0 => {
            let answer = answers[0];
            &&& write.asks() matches WriteRequest::CreateNew(path) ==> (answer.reply is Done
                ==> !files.contains_key(path))
            &&& write.asks() is Remove ==> answer.reply is Done
            &&& orderly(
                write.after(answer.reply, answer.nonce),
                files_after(files, write.asks(), answer.reply, data, answer.partial),
                answers.skip(1),
                data,
            )
        },
        _ => true,
    }
}

/// A replacement that has ended leaves no file behind: one that was refused leaves all
/// files as they were, and one that succeeded changes the target alone.
pub proof fn law_replacement_leaves_nothing_behind(
    target: Seq<u8>,
    sets_permissions: bool,
    nonce: u64,
    files: Map<Seq<u8>, Seq<u8>>,
    answers: Seq<Answer>,
    data: Seq<u8>,
)
    requires
        orderly(AtomicWrite::start(target, sets_permissions, nonce), files, answers, data),
    ensures
        ({
            let start = AtomicWrite::start(target, sets_permissions, nonce);
            let (end, left) = replaced(start, files, answers, data);
            &&& end is Refused ==> left == files
            &&& end is Found ==> left == files.insert(target, data)
        }),
{
    law_atomic_write_start(target, sets_permissions, nonce);
    if let Step::Continue(write) = AtomicWrite::start(target, sets_permissions, nonce) {
        lemma_nothing_left(write, files, files, answers, data);
    }
}

/// True when `now` are the files before the replacement, with its temporary file where
/// that has been created.
spec fn only_temp_added(
    write: AtomicModel,
    before: Map<Seq<u8>, Seq<u8>>,
    now: Map<Seq<u8>, Seq<u8>>,
) -> bool {
    if temp_exists(write) {
        !before.contains_key(temp_of(write)) && now.contains_key(temp_of(write)) && now
            == before.insert(temp_of(write), now[temp_of(write)])
    } else {
        now == before
    }
}

proof fn lemma_nothing_left(
    write: AtomicModel,
    before: Map<Seq<u8>, Seq<u8>>,
    now: Map<Seq<u8>, Seq<u8>>,
    answers: Seq<Answer>,
    data: Seq<u8>,
)
    requires
        atomic_invariant(write),
        files_invariant(write, now, content(before, target_of(write)), data),
        only_temp_added(write, before, now),
        orderly(Step::Continue(write), now, answers, data),
    ensures
        ({
            let (end, left) = replaced(Step::Continue(write), now, answers, data);
            &&& end is Refused ==> left == before
            &&& end is Found ==> left == before.insert(target_of(write), data)
        }),
    decreases answers.len(),
{
    reveal_with_fuel(replaced, 2);
    reveal_with_fuel(orderly, 2);
    if answers.len() > 0 {
        let answer = answers[0];
        let after = files_after(now, write.asks(), answer.reply, data, answer.partial);
        let temp = temp_of(write);
        let target = target_of(write);
        law_target_is_only_renamed_to(write);
        assert(temp != target);
        law_target_holds_old_or_new(
            write,
            answer.reply,
            answer.nonce,
            now,
            content(before, target),
            data,
            answer.partial,
        );
        law_atomic_write_keeps_its_target(write, answer.reply, answer.nonce);
        match write.after(answer.reply, answer.nonce) {
            Step::Continue(next) => {
                if temp_exists(next) {
                    assert(temp_of(next) == temp);
                    assert(after == before.insert(temp, after[temp]));
                }
                lemma_nothing_left(next, before, after, answers.skip(1), data);
            },
            Step::Found(_) => {
                assert(now[temp] == data);
                assert(after == before.insert(target, data));
            },
            Step::Refused(_) => {
                assert(after == before);
            },
        }
    }
}

/// How the preparation of a temporary file goes on with one answer after the other, until
/// it has ended or the answers have run out, and the files that it leaves.
pub open spec fn prepared(
    step: Step<TempModel, Seq<u8>, Seq<char>>,
    files: Map<Seq<u8>, Seq<u8>>,
    answers: Seq<Answer>,
    data: Seq<u8>,
) -> (Step<TempModel, Seq<u8>, Seq<char>>, Map<Seq<u8>, Seq<u8>>)
    decreases answers.len(),
{
    match step {
        Step::Continue(write) if answers.len() > 0 => {
            let answer = answers[0];
            prepared(
                write.after(answer.reply, answer.nonce),
                files_after(files, write.asks(), answer.reply, data, answer.partial),
                answers.skip(1),
                data,
            )
        },
        _ => (step, files),
    }
}

/// True when the answers to a preparation are those of a file system that creates a file
/// only where there is none, and that removes what it is asked to remove.
pub open spec fn prepared_orderly(
    step: Step<TempModel, Seq<u8>, Seq<char>>,
    files: Map<Seq<u8>, Seq<u8>>,
    answers: Seq<Answer>,
    data: Seq<u8>,
) -> bool
    decreases answers.len(),
{
    match step {
        Step::Continue(write) if answers.len() > 0 => {
            let answer = answers[0];
            &&& write.asks() matches WriteRequest::CreateNew(path) ==> (answer.reply is Done
                ==> !files.contains_key(path))
            &&& write.asks() is Remove ==> answer.reply is Done
            &&& prepared_orderly(
                write.after(answer.reply, answer.nonce),
                files_after(files, write.asks(), answer.reply, data, answer.partial),
                answers.skip(1),
                data,
            )
        },
        _ => true,
    }
}

/// A preparation that ends with a file leaves that file, which is new, with all of the
/// data, and no other change. One that is refused leaves all files as they were.
pub proof fn law_preparation_adds_one_file(
    target: Seq<u8>,
    sets_permissions: bool,
    nonce: u64,
    files: Map<Seq<u8>, Seq<u8>>,
    answers: Seq<Answer>,
    data: Seq<u8>,
)
    requires
        prepared_orderly(
            TempFileWrite::start(target, sets_permissions, nonce),
            files,
            answers,
            data,
        ),
    ensures
        ({
            let start = TempFileWrite::start(target, sets_permissions, nonce);
            let (end, left) = prepared(start, files, answers, data);
            &&& end matches Step::Found(temp) ==> !files.contains_key(temp) && left
                == files.insert(temp, data)
            &&& end is Refused ==> left == files
        }),
{
    if let Step::Continue(write) = TempFileWrite::start(target, sets_permissions, nonce) {
        lemma_prepared(write, files, files, answers, data);
    }
}

/// True when `now` are the files before the preparation, with its file where that has been
/// created, which holds the data from the moment when that has been written.
spec fn only_prepared_added(
    write: TempModel,
    before: Map<Seq<u8>, Seq<u8>>,
    now: Map<Seq<u8>, Seq<u8>>,
    data: Seq<u8>,
) -> bool {
    if write.phase is Creating {
        now == before
    } else {
        &&& !before.contains_key(write.temp)
        &&& now.contains_key(write.temp)
        &&& now == before.insert(write.temp, now[write.temp])
        &&& write.phase is Permitting || write.phase is Syncing ==> now[write.temp] == data
    }
}

proof fn lemma_prepared(
    write: TempModel,
    before: Map<Seq<u8>, Seq<u8>>,
    now: Map<Seq<u8>, Seq<u8>>,
    answers: Seq<Answer>,
    data: Seq<u8>,
)
    requires
        only_prepared_added(write, before, now, data),
        prepared_orderly(Step::Continue(write), now, answers, data),
    ensures
        ({
            let (end, left) = prepared(Step::Continue(write), now, answers, data);
            &&& end matches Step::Found(temp) ==> !before.contains_key(temp) && left
                == before.insert(temp, data)
            &&& end is Refused ==> left == before
        }),
    decreases answers.len(),
{
    reveal_with_fuel(prepared, 2);
    reveal_with_fuel(prepared_orderly, 2);
    if answers.len() > 0 {
        let answer = answers[0];
        let after = files_after(now, write.asks(), answer.reply, data, answer.partial);
        match write.after(answer.reply, answer.nonce) {
            Step::Continue(next) => {
                if !(next.phase is Creating) {
                    assert(next.temp == write.temp);
                    assert(after == before.insert(write.temp, after[write.temp]));
                }
                lemma_prepared(next, before, after, answers.skip(1), data);
            },
            Step::Found(_) => {},
            Step::Refused(_) => {
                assert(after == before);
            },
        }
    }
}

/// A replacement of a target that has a name succeeds where the file system does all that
/// it asks for.
pub proof fn law_replacement_succeeds(
    target: Seq<u8>,
    sets_permissions: bool,
    nonce: u64,
    files: Map<Seq<u8>, Seq<u8>>,
    answers: Seq<Answer>,
    data: Seq<u8>,
)
    requires
        path::file_name(target) is Some,
        answers.len() >= 5,
        forall|i: int| 0 <= i < answers.len() ==> (#[trigger] answers[i]).reply is Done,
    ensures
        replaced(
            AtomicWrite::start(target, sets_permissions, nonce),
            files,
            answers,
            data,
        ).0 is Found,
{
    law_atomic_write_start(target, sets_permissions, nonce);
    assert(answers.skip(1)[0] == answers[1]);
    assert(answers.skip(1).skip(1)[0] == answers[2]);
    assert(answers.skip(1).skip(1).skip(1)[0] == answers[3]);
    assert(answers.skip(1).skip(1).skip(1).skip(1)[0] == answers[4]);
    reveal_with_fuel(replaced, 6);
}

} // verus!
