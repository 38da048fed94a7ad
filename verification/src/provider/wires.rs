//! What stands in an address, a path, a status line and the bytes of a transport.

use crate::provider::commandcode::{is_separator, last_component, slug_of, without_separators};
use crate::provider::local::{last_line_start, with_status, without_slashes};
use crate::provider::transport::{
    first_visible, is_ascii_blank, is_progress, last_status, makes_progress, part_length, parts_of,
    status_of_line, Observation, TransportEnd, TransportWatch, WatchAction,
};
use crate::text::{char_is_whitespace, digit_char, digits, trim_end, trim_start};
use crate::words::law_numbers_read_back;
use vstd::prelude::*;
use vstd::utf8::{decode_utf8, valid_utf8};

verus! {

proof fn lemma_digits(n: nat)
    ensures
        digits(n).len() > 0,
        forall|i: int| 0 <= i < digits(n).len() ==> '0' <= #[trigger] digits(n)[i] <= '9',
    decreases n,
{
    if n >= 10 {
        lemma_digits(n / 10);
        assert(digits(n).last() == digit_char((n % 10) as int));
    } else {
        assert(digits(n)[0] == digit_char(n as int));
    }
}

proof fn lemma_last_line(body: Seq<char>, line: Seq<char>)
    requires
        forall|i: int| 0 <= i < line.len() ==> (#[trigger] line[i]) != '\n',
    ensures
        last_line_start(body.push('\n') + line) == Some(body.len() as int + 1),
    decreases line.len(),
{
    let s = body.push('\n') + line;
    if line.len() == 0 {
        assert(s =~= body.push('\n'));
    } else {
        assert(s.last() == line.last());
        assert(line.last() == line[line.len() - 1]);
        assert(s.drop_last() =~= body.push('\n') + line.drop_last());
        lemma_last_line(body, line.drop_last());
    }
}

/// A response that its transport ends with a status on a line of its own gives back the body
/// before that line, and the status.
pub proof fn law_a_status_stands_behind_its_body(bytes: Seq<u8>, body: Seq<char>, status: u16)
    requires
        valid_utf8(bytes),
        decode_utf8(bytes) == body.push('\n') + digits(status as nat),
    ensures
        with_status(bytes) == Ok::<(Seq<char>, u16), Seq<char>>((body, status)),
{
    let line = digits(status as nat);
    let output = body.push('\n') + line;
    lemma_digits(status as nat);
    lemma_last_line(body, line);
    assert(output.skip(body.len() as int + 1) =~= line);
    assert(output.take(body.len() as int) =~= body);
    assert('0' <= line[0] <= '9');
    assert('0' <= line[line.len() - 1] <= '9');
    assert(!char_is_whitespace(line[0]));
    assert(!char_is_whitespace(line.last()));
    assert(trim_start(line) == line);
    assert(trim_end(line) == line);
    law_numbers_read_back(status as nat);
}

/// An address is used without the slashes that end it, and otherwise as it is.
pub proof fn law_addresses_lose_only_their_last_slashes(url: Seq<char>)
    ensures
        without_slashes(url).len() <= url.len(),
        without_slashes(url) == url.take(without_slashes(url).len() as int),
        forall|i: int|
            without_slashes(url).len() <= i < url.len() ==> (#[trigger] url[i]) == '/',
        without_slashes(url).len() > 0 ==> without_slashes(url).last() != '/',
    decreases url.len(),
{
    if url.len() > 0 && url.last() == '/' {
        let front = url.drop_last();
        law_addresses_lose_only_their_last_slashes(front);
        let n = without_slashes(front).len() as int;
        assert(front.take(n) =~= url.take(n));
        assert forall|i: int| n <= i < url.len() implies (#[trigger] url[i]) == '/' by {
            if i < front.len() {
                assert(front[i] == url[i]);
            }
        }
    } else {
        assert(url.take(url.len() as int) =~= url);
    }
}

proof fn lemma_component(front: Seq<char>, name: Seq<char>)
    requires
        front.len() == 0 || is_separator(front.last()),
        forall|i: int| 0 <= i < name.len() ==> !is_separator(#[trigger] name[i]),
    ensures
        last_component(front + name) == name,
    decreases name.len(),
{
    let path = front + name;
    if name.len() == 0 {
        assert(path =~= front);
        assert(name =~= Seq::<char>::empty());
    } else {
        assert(path.last() == name.last());
        assert(name.last() == name[name.len() - 1]);
        assert(path.drop_last() =~= front + name.drop_last());
        lemma_component(front, name.drop_last());
        assert(name.drop_last().push(name.last()) =~= name);
    }
}

proof fn lemma_without_separators(path: Seq<char>, tail: Seq<char>)
    requires
        path.len() == 0 || !is_separator(path.last()),
        forall|i: int| 0 <= i < tail.len() ==> is_separator(#[trigger] tail[i]),
    ensures
        without_separators(path + tail) == path,
    decreases tail.len(),
{
    let s = path + tail;
    if tail.len() == 0 {
        assert(s =~= path);
    } else {
        assert(s.last() == tail[tail.len() - 1]);
        assert(s.drop_last() =~= path + tail.drop_last());
        lemma_without_separators(path, tail.drop_last());
    }
}

/// A project is called by the last component of its directory, whatever separators end it; one
/// without a component has a name of its own.
pub proof fn law_projects_are_called_by_their_directory(
    front: Seq<char>,
    name: Seq<char>,
    tail: Seq<char>,
)
    requires
        front.len() == 0 || is_separator(front.last()),
        forall|i: int| 0 <= i < name.len() ==> !is_separator(#[trigger] name[i]),
        forall|i: int| 0 <= i < tail.len() ==> is_separator(#[trigger] tail[i]),
        name.len() > 0,
    ensures
        slug_of(front + name + tail) == name,
        slug_of(tail) == "project"@,
{
    assert((front + name).last() == name[name.len() - 1]);
    lemma_without_separators(front + name, tail);
    lemma_component(front, name);
    let none: Seq<char> = Seq::empty();
    assert(none + tail =~= tail);
    lemma_without_separators(none, tail);
}

proof fn lemma_part_length(s: Seq<u8>, sep: u8, n: int)
    requires
        0 <= n <= s.len(),
        forall|k: int| 0 <= k < n ==> s[k] != sep,
        n == s.len() || s[n] == sep,
    ensures
        part_length(s, sep) == n,
    decreases s.len(),
{
    if n > 0 {
        lemma_part_length(s.skip(1), sep, n - 1);
    }
}

/// Bytes are split at every separator and nowhere else; what stands behind the last one is a part
/// too.
pub proof fn law_bytes_are_split_at_separators(part: Seq<u8>, rest: Seq<u8>, sep: u8)
    requires
        forall|k: int| 0 <= k < part.len() ==> (#[trigger] part[k]) != sep,
    ensures
        parts_of(part.push(sep) + rest, sep) == seq![part] + parts_of(rest, sep),
        parts_of(part, sep) == seq![part],
{
    let s = part.push(sep) + rest;
    let n = part.len() as int;
    assert forall|k: int| 0 <= k < n implies s[k] != sep by {
        assert(s[k] == part[k]);
    }
    assert(s[n] == sep);
    lemma_part_length(s, sep, n);
    assert(s.take(n) =~= part);
    assert(s.skip(n + 1) =~= rest);
    lemma_part_length(part, sep, n);
}

/// The last header line that reports a status decides: a later one replaces it, and other lines
/// change nothing.
pub proof fn law_the_last_status_decides(lines: Seq<Seq<u8>>, line: Seq<u8>)
    ensures
        last_status(lines.push(line)) == if status_of_line(line) is Some {
            status_of_line(line)
        } else {
            last_status(lines)
        },
        last_status(Seq::empty()) is None,
{
    assert(lines.push(line).drop_last() =~= lines);
}

/// A line tells of progress exactly where its first visible byte is there and begins no comment.
pub proof fn law_comments_are_no_progress(line: Seq<u8>, i: int)
    requires
        0 <= i <= line.len(),
        forall|k: int| 0 <= k < i ==> is_ascii_blank(#[trigger] line[k]),
        i == line.len() || !is_ascii_blank(line[i]),
    ensures
        is_progress(line) <==> i < line.len() && line[i] != 58,
        (forall|k: int| 0 <= k < line.len() ==> (#[trigger] line[k]) != 10) ==> makes_progress(line)
            == is_progress(line),
    decreases i,
{
    if i > 0 {
        let rest = line.skip(1);
        assert(is_ascii_blank(line[0]));
        assert forall|k: int| 0 <= k < i - 1 implies is_ascii_blank(#[trigger] rest[k]) by {
            assert(rest[k] == line[k + 1]);
        }
        law_comments_are_no_progress(rest, i - 1);
        assert(first_visible(line) == first_visible(rest));
    }
    if forall|k: int| 0 <= k < line.len() ==> (#[trigger] line[k]) != 10 {
        law_bytes_are_split_at_separators(line, Seq::empty(), 10);
        assert(parts_of(line, 10)[0] == line);
    }
}

/// A quiet process has stalled exactly where nothing meaningful came for the whole timeout; it is
/// reported with the bytes that came.
pub proof fn law_quiet_processes_stall(watch: TransportWatch, seen: Observation, now: u64)
    ensures
        now >= watch.last_progress ==> (watch.rest(now) == WatchAction::End(
            TransportEnd::Stalled { bytes: watch.observed },
        ) <==> now - watch.last_progress >= watch.stall_timeout),
        watch.rest(now) == WatchAction::Sleep || watch.rest(now) == WatchAction::End(
            TransportEnd::Stalled { bytes: watch.observed },
        ),
        ({
            let after = watch.after_read(seen);
            &&& watch.observed + seen.read <= u64::MAX ==> after.observed == watch.observed
                + seen.read
            &&& seen.meaningful ==> after.last_progress == seen.now
            &&& !seen.meaningful ==> after.last_progress == watch.last_progress
            &&& after.stall_timeout == watch.stall_timeout
        }),
{
}

} // verus!
