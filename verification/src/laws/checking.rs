use crate::checker::{check_begun, prepare_record, seed_record, CheckView, CheckingView};
use crate::error::ErrorView;
use crate::laws::running::lemma_enough_fuel;
use crate::layout::{marker, ANITYA_URL, CURRENT_VERSION_DIRECTORY, NO_VERSION};
use crate::lookup::is_success;
use crate::version::{
    compared, current_version, is_blank_byte, is_kept_byte, lemma_strip_bytes_is_strip,
    recorded_version, strip_bytes, CheckResultView,
};
use crate::wire::{ProgressView, ReplyView, RequestView};
use crate::world::{driven, lies_in, Node, World};
use vstd::prelude::*;
use vstd::utf8::{decode_utf8, encode_utf8, pop_first_scalar, valid_utf8};

verus! {

/// The step of a check as a function.
pub open spec fn check_next() -> spec_fn(CheckView, ReplyView) -> CheckingView {
    |check: CheckView, reply: ReplyView| check.next(reply)
}

/// The registry answers with success, and gives `latest` as the latest version.
pub open spec fn registry_offers(w: World, latest: Seq<char>) -> bool {
    &&& (w.remote)(RequestView::Get { url: ANITYA_URL@ }) matches ReplyView::Status { code, length }
        && is_success(code)
    &&& (w.remote)(RequestView::ReadVersion) == ReplyView::Text(latest)
}

/// The requests of a lookup that succeeds.
pub open spec fn lookup_requests() -> Seq<RequestView> {
    seq![RequestView::Get { url: ANITYA_URL@ }, RequestView::ReadVersion]
}

/// The version that a check takes for the recorded one in `w`: what the
/// version record gives, or the word for no version where it gives none.
pub open spec fn recorded_in(w: World) -> Seq<char> {
    match current_version(w.answer(RequestView::ReadFile { path: marker() })) {
        Ok(local) => local,
        Err(_) => NO_VERSION@,
    }
}

/// A check, run in a world whose registry offers `remote`, finds the
/// recorded version up to date exactly when it equals `remote`, and
/// otherwise reports both as they are. Where the version record gives a
/// version the world is left as it was. Where it gives none, the record's
/// directory is made and the record is written with the word for no version;
/// where one of the two cannot be done the check ends with an error of the
/// filesystem.
pub proof fn law_check_compares(w: World, remote: Seq<char>, fuel: nat)
    requires
        registry_offers(w, remote),
        fuel >= 5,
    ensures
        ({
            let run = driven(check_next(), check_begun(), w, fuel);
            let read = RequestView::ReadFile { path: marker() };
            let local = recorded_in(w);
            let prepared = w.after(prepare_record());
            let seeded = w.answer(prepare_record()) == ReplyView::Done && prepared.answer(
                seed_record(),
            ) == ReplyView::Done;
            &&& local == remote ==> compared(local, remote) == CheckResultView::UpToDate
            &&& local != remote ==> compared(local, remote) == (CheckResultView::OutOfDate {
                local,
                remote,
            })
            &&& current_version(w.answer(read)) is Ok ==> run.progress == ProgressView::<
                CheckView,
                Result<CheckResultView, ErrorView>,
            >::Done(Ok(compared(local, remote))) && run.world == w && run.asked
                == lookup_requests() + seq![read]
            &&& current_version(w.answer(read)) is Err && seeded ==> run.progress
                == ProgressView::<CheckView, Result<CheckResultView, ErrorView>>::Done(
                Ok(compared(local, remote)),
            ) && run.world == prepared.after(seed_record()) && run.asked == lookup_requests()
                + seq![read, prepare_record(), seed_record()]
            &&& current_version(w.answer(read)) is Err && !seeded ==> run.progress
                == ProgressView::<CheckView, Result<CheckResultView, ErrorView>>::Done(
                Err(ErrorView::Filesystem { detail: w.excuse }),
            )
        }),
{
    reveal_with_fuel(driven, 6);
    let run = driven(check_next(), check_begun(), w, 5);
    let read = RequestView::ReadFile { path: marker() };
    let prepared = w.after(prepare_record());
    if current_version(w.answer(read)) is Ok {
        assert(run.asked =~= lookup_requests() + seq![read]);
    } else if w.answer(prepare_record()) == ReplyView::Done && prepared.answer(seed_record())
        == ReplyView::Done {
        assert(run.asked =~= lookup_requests() + seq![read, prepare_record(), seed_record()]);
    }
    lemma_enough_fuel(check_next(), check_begun(), w, 5, (fuel - 5) as nat);
}

/// A first check, in a world in which neither the version record nor its
/// directory stands, makes the directory, writes the record with the word
/// for no version, and reports that word against the latest version.
pub proof fn law_first_check_seeds_record(w: World, remote: Seq<char>, fuel: nat)
    requires
        registry_offers(w, remote),
        !w.has(marker()),
        !w.has(CURRENT_VERSION_DIRECTORY@),
        fuel >= 5,
    ensures
        ({
            let run = driven(check_next(), check_begun(), w, fuel);
            &&& run.progress == ProgressView::<CheckView, Result<CheckResultView, ErrorView>>::Done(
                Ok(compared(NO_VERSION@, remote)),
            )
            &&& run.world.has_dir(CURRENT_VERSION_DIRECTORY@)
            &&& run.world.has(marker())
            &&& run.world.nodes[marker()] == Node::File(encode_utf8(NO_VERSION@))
        }),
{
    law_check_compares(w, remote, fuel);
    reveal_strlit("/var/lib/vsdown/");
    reveal_strlit("current_version");
    let prepared = w.after(prepare_record());
    let directory = CURRENT_VERSION_DIRECTORY@;
    assert(marker().subrange(0, directory.len() as int) =~= directory);
    assert(directory.last() == '/');
    assert(prepared.has_dir(directory) && lies_in(marker(), directory));
    assert(prepared.houses(marker()));
}

/// A selection from items of which none passes the test is empty.
proof fn lemma_filter_drops_all<A>(s: Seq<A>, pred: spec_fn(A) -> bool)
    requires
        forall|i: int| 0 <= i < s.len() ==> !pred(#[trigger] s[i]),
    ensures
        s.filter(pred) == Seq::<A>::empty(),
    decreases s.len(),
{
    reveal(Seq::filter);
    if s.len() > 0 {
        lemma_filter_drops_all(s.drop_last(), pred);
    }
}

/// Bytes of newlines and spaces are well-formed UTF-8.
proof fn lemma_blanks_are_text(content: Seq<u8>)
    requires
        forall|i: int| 0 <= i < content.len() ==> is_blank_byte(#[trigger] content[i]),
    ensures
        valid_utf8(content),
    decreases content.len(),
{
    if content.len() > 0 {
        let b = content[0];
        assert(is_blank_byte(b));
        assert((b & 0x7F) as u32 <= 0x7F) by (bit_vector);
        let rest = pop_first_scalar(content);
        assert forall|i: int| 0 <= i < rest.len() implies is_blank_byte(#[trigger] rest[i]) by {
            assert(rest[i] == content[i + 1]);
        }
        lemma_blanks_are_text(rest);
    }
}

/// A version record that holds nothing but newlines and spaces is not
/// empty, gives the empty version, and so is out of date against every
/// latest version that is not empty.
pub proof fn law_blank_record_is_out_of_date(content: Seq<u8>, remote: Seq<char>)
    requires
        content.len() > 0,
        forall|i: int| 0 <= i < content.len() ==> is_blank_byte(#[trigger] content[i]),
        remote.len() > 0,
    ensures
        recorded_version(content) == Ok::<Seq<char>, ErrorView>(Seq::empty()),
        compared(Seq::empty(), remote) == (CheckResultView::OutOfDate {
            local: Seq::empty(),
            remote,
        }),
{
    lemma_blanks_are_text(content);
    lemma_strip_bytes_is_strip(content);
    lemma_filter_drops_all(content, is_kept_byte());
    assert(strip_bytes(content) =~= Seq::<u8>::empty());
    assert(decode_utf8(Seq::<u8>::empty()) =~= Seq::<char>::empty());
    assert(remote != Seq::<char>::empty());
}

/// A check in a world whose version record holds nothing but newlines and
/// spaces reports the empty version against the latest one, and leaves the
/// record as it is.
pub proof fn law_check_of_blank_record(w: World, content: Seq<u8>, remote: Seq<char>, fuel: nat)
    requires
        registry_offers(w, remote),
        remote.len() > 0,
        content.len() > 0,
        forall|i: int| 0 <= i < content.len() ==> is_blank_byte(#[trigger] content[i]),
        w.has(marker()),
        w.nodes[marker()] == Node::File(content),
        fuel >= 5,
    ensures
        ({
            let run = driven(check_next(), check_begun(), w, fuel);
            &&& run.progress == ProgressView::<CheckView, Result<CheckResultView, ErrorView>>::Done(
                Ok(CheckResultView::OutOfDate { local: Seq::empty(), remote }),
            )
            &&& run.world == w
        }),
{
    law_blank_record_is_out_of_date(content, remote);
    law_check_compares(w, remote, fuel);
}

} // verus!
