//! Compares snapshots of the pane by content.
use crate::text;
use crate::types::DeltaResult;
use sha2::Digest;
use vstd::prelude::*;

verus! {

/// The 32 bytes of the SHA-256 digest of the data.
pub uninterp spec fn sha256(data: Seq<u8>) -> Seq<u8>;

/// The lower-case hexadecimal digit with the value `n`.
pub open spec fn hex_digit(n: int) -> char {
    if n < 10 {
        (48 + n) as char
    } else {
        (87 + n) as char
    }
}

/// Two lower-case hexadecimal digits for each byte, the high half first.
pub open spec fn hex_text(data: Seq<u8>) -> Seq<char> {
    Seq::new(
        2 * data.len(),
        |i: int|
            if i % 2 == 0 {
                hex_digit(data[i / 2] as int / 16)
            } else {
                hex_digit(data[i / 2] as int % 16)
            },
    )
}

/// `Sha256::digest` of the `sha2` crate. It is claimed that the digest depends
/// on the data alone and is 32 bytes long.
#[verifier::external_body]
fn sha256_digest(data: &[u8]) -> (r: Vec<u8>)
    ensures
        r@ == sha256(data@),
        r@.len() == 32,
{
    sha2::Sha256::digest(data).to_vec()
}

/// `hex::encode`: each byte becomes two lower-case hexadecimal digits.
#[verifier::external_body]
fn hex_encode(data: &[u8]) -> (r: String)
    ensures
        r@ == hex_text(data@),
{
    hex::encode(data)
}

/// The SHA-256 digest of the content in hexadecimal.
pub fn hash_content(content: &str) -> (r: String)
    ensures
        r@ == hex_text(sha256(vstd::utf8::encode_utf8(content@))),
        r@.len() == 64,
{
    let digest = sha256_digest(content.as_bytes());
    hex_encode(digest.as_slice())
}

/// The lines of a snapshot; an empty snapshot has none.
pub open spec fn lines(content: Seq<char>) -> Seq<Seq<char>> {
    if content.len() == 0 {
        Seq::empty()
    } else {
        text::split(content, '\n')
    }
}

/// The last `k` lines of `prev` are the first `k` lines of `next`.
pub open spec fn overlaps(prev: Seq<Seq<char>>, next: Seq<Seq<char>>, k: int) -> bool {
    &&& 0 <= k <= prev.len()
    &&& k <= next.len()
    &&& prev.skip(prev.len() - k) == next.take(k)
}

/// The largest overlap of at most `k` lines.
pub open spec fn longest_overlap_within(
    prev: Seq<Seq<char>>,
    next: Seq<Seq<char>>,
    k: nat,
) -> nat
    decreases k,
{
    if k == 0 || overlaps(prev, next, k as int) {
        k
    } else {
        longest_overlap_within(prev, next, (k - 1) as nat)
    }
}

/// The largest number of lines at the end of `prev` that `next` begins with.
pub open spec fn longest_overlap(prev: Seq<Seq<char>>, next: Seq<Seq<char>>) -> nat {
    longest_overlap_within(
        prev,
        next,
        if prev.len() < next.len() {
            prev.len()
        } else {
            next.len()
        },
    )
}

/// The lines of `next` behind its longest overlap with `prev`.
pub open spec fn added(prev: Seq<Seq<char>>, next: Seq<Seq<char>>) -> Seq<Seq<char>> {
    next.skip(longest_overlap(prev, next) as int)
}

/// The lines of a snapshot as strings.
fn lines_of(content: &str) -> (r: Vec<String>)
    ensures
        text::views(r@) == lines(content@),
{
    if content.is_empty() {
        let r: Vec<String> = Vec::new();
        proof {
            assert(text::views(r@) =~= lines(content@));
        }
        r
    } else {
        text::split_text(content, '\n')
    }
}

/// Whether the last `k` lines of `prev` are the first `k` lines of `next`.
fn lines_overlap(prev: &Vec<String>, next: &Vec<String>, k: usize) -> (r: bool)
    requires
        k <= prev@.len(),
        k <= next@.len(),
    ensures
        r == overlaps(text::views(prev@), text::views(next@), k as int),
{
    let ghost p = text::views(prev@);
    let ghost n = text::views(next@);
    let len: usize = prev.len();
    let start: usize = len - k;
    let mut i: usize = 0;
    while i < k
        invariant
            i <= k <= len,
            len == prev@.len(),
            k <= next@.len(),
            start == len - k,
            p == text::views(prev@),
            n == text::views(next@),
            forall|j: int| 0 <= j < i ==> p[start + j] == #[trigger] n[j],
        decreases k - i,
    {
        if prev[start + i] != next[i] {
            proof {
                assert(p.skip(start as int)[i as int] == prev@[start + i]@);
                assert(n.take(k as int)[i as int] == next@[i as int]@);
            }
            return false;
        }
        i += 1;
    }
    proof {
        assert(p.skip(start as int) =~= n.take(k as int));
    }
    true
}

/// Diffs two snapshots by line content, never by numeric offset. The scrollback
/// has a ceiling: once it is hit, old lines fall out and every remaining line
/// shifts up, which would corrupt a diff keyed on a saved line index. Instead
/// this finds the longest end of `prev_content` that `next_content` begins with.
pub fn diff_lines(prev_content: &str, next_content: &str) -> (r: DeltaResult)
    ensures
        text::views(r.added_lines@) == added(lines(prev_content@), lines(next_content@)),
        r.changed == (r.added_lines@.len() > 0),
{
    let prev = lines_of(prev_content);
    let next = lines_of(next_content);
    let ghost p = text::views(prev@);
    let ghost n = text::views(next@);
    let mut k: usize = if prev.len() < next.len() {
        prev.len()
    } else {
        next.len()
    };
    while k > 0 && !lines_overlap(&prev, &next, k)
        invariant
            k <= prev@.len(),
            k <= next@.len(),
            p == text::views(prev@),
            n == text::views(next@),
            longest_overlap(p, n) == longest_overlap_within(p, n, k as nat),
        decreases k,
    {
        k -= 1;
    }
    let mut added_lines: Vec<String> = Vec::new();
    let mut i: usize = k;
    while i < next.len()
        invariant
            k <= i <= next@.len(),
            n == text::views(next@),
            text::views(added_lines@) == n.subrange(k as int, i as int),
        decreases next@.len() - i,
    {
        let ghost before = text::views(added_lines@);
        added_lines.push(next[i].clone());
        proof {
            assert(text::views(added_lines@) =~= before.push(n[i as int]));
            assert(n.subrange(k as int, i + 1) =~= before.push(n[i as int]));
        }
        i += 1;
    }
    proof {
        assert(n.subrange(k as int, i as int) =~= n.skip(k as int));
        assert(text::views(added_lines@).len() == added_lines@.len());
    }
    let changed = added_lines.len() > 0;
    DeltaResult { added_lines, changed }
}

/// The bounded search finds an overlap, and none within the bound is longer.
proof fn within_is_largest(prev: Seq<Seq<char>>, next: Seq<Seq<char>>, k: nat)
    ensures
        longest_overlap_within(prev, next, k) <= k,
        longest_overlap_within(prev, next, k) > 0 ==> overlaps(
            prev,
            next,
            longest_overlap_within(prev, next, k) as int,
        ),
        forall|j: int|
            #![trigger overlaps(prev, next, j)]
            j <= k && overlaps(prev, next, j) ==> j <= longest_overlap_within(prev, next, k),
    decreases k,
{
    if k > 0 && !overlaps(prev, next, k as int) {
        within_is_largest(prev, next, (k - 1) as nat);
    }
}

/// The overlap that is left out is one, and no longer one exists: `next` is an
/// end of `prev` followed by the added lines, with as few added as possible.
pub proof fn overlap_is_longest(prev: Seq<Seq<char>>, next: Seq<Seq<char>>)
    ensures
        overlaps(prev, next, longest_overlap(prev, next) as int),
        forall|j: int|
            #![trigger overlaps(prev, next, j)]
            overlaps(prev, next, j) ==> j <= longest_overlap(prev, next),
        next == prev.skip(prev.len() - longest_overlap(prev, next)) + added(prev, next),
{
    let bound = if prev.len() < next.len() {
        prev.len()
    } else {
        next.len()
    };
    within_is_largest(prev, next, bound);
    assert(prev.skip(prev.len() - 0) =~= next.take(0));
    let k = longest_overlap(prev, next) as int;
    assert(overlaps(prev, next, k));
    assert(next =~= next.take(k) + next.skip(k));
}

/// A snapshot compared with itself has nothing new.
pub proof fn same_content_adds_nothing(content: Seq<Seq<char>>)
    ensures
        added(content, content).len() == 0,
{
    overlap_is_longest(content, content);
    assert(content.skip(0) =~= content.take(content.len() as int));
    assert(overlaps(content, content, content.len() as int));
}

/// Lines appended below an unchanged snapshot are exactly what is new.
pub proof fn appended_lines_are_added(prev: Seq<Seq<char>>, new: Seq<Seq<char>>)
    ensures
        added(prev, prev + new) == new,
{
    let next = prev + new;
    overlap_is_longest(prev, next);
    assert(prev.skip(0) =~= next.take(prev.len() as int));
    assert(overlaps(prev, next, prev.len() as int));
    assert(next.skip(prev.len() as int) =~= new);
}

/// When the oldest lines have scrolled out and new ones came in below, no line
/// that was already there is reported: what is added is an end of the new ones.
pub proof fn eviction_reports_only_new_lines(
    evicted: Seq<Seq<char>>,
    kept: Seq<Seq<char>>,
    new: Seq<Seq<char>>,
)
    ensures
        added(evicted + kept, kept + new).len() <= new.len(),
        added(evicted + kept, kept + new) == new.skip(
            new.len() - added(evicted + kept, kept + new).len(),
        ),
{
    let prev = evicted + kept;
    let next = kept + new;
    overlap_is_longest(prev, next);
    assert(prev.skip(evicted.len() as int) =~= next.take(kept.len() as int));
    assert(overlaps(prev, next, kept.len() as int));
    let k = longest_overlap(prev, next) as int;
    assert(next.skip(k) =~= new.skip(k - kept.len()));
}

/// Nothing came before: everything is new.
pub proof fn empty_previous_adds_everything(next: Seq<Seq<char>>)
    ensures
        added(Seq::empty(), next) == next,
{
    overlap_is_longest(Seq::empty(), next);
    assert(next.skip(0) =~= next);
}

/// The lines of a snapshot, joined with line feeds, are the snapshot, and no line
/// holds a line feed; an empty snapshot has no line and every other has one.
pub proof fn lines_are_the_snapshot(content: Seq<char>)
    ensures
        text::joined(lines(content), "\n"@) == content,
        lines(content).len() == 0 <==> content.len() == 0,
        forall|i: int|
            0 <= i < lines(content).len() ==> !(#[trigger] lines(content)[i]).contains('\n'),
{
    reveal_strlit("\n");
    assert("\n"@ =~= seq!['\n']);
    text::split_then_joined(content, '\n');
    text::split_pieces_lack_separator(content, '\n');
}

/// The new snapshot is some end of the old one with the added lines behind it, and
/// every other way of cutting it into an end of the old one and a rest leaves a rest
/// that is no shorter.
pub proof fn added_is_the_shortest_rest(
    prev: Seq<Seq<char>>,
    next: Seq<Seq<char>>,
    evicted: Seq<Seq<char>>,
    kept: Seq<Seq<char>>,
    rest: Seq<Seq<char>>,
) -> (cut: (Seq<Seq<char>>, Seq<Seq<char>>))
    ensures
        prev == cut.0 + cut.1,
        next == cut.1 + added(prev, next),
        prev == evicted + kept && next == kept + rest ==> added(prev, next).len() <= rest.len(),
{
    overlap_is_longest(prev, next);
    let k = longest_overlap(prev, next) as int;
    if prev == evicted + kept && next == kept + rest {
        eviction_reports_only_new_lines(evicted, kept, rest);
    }
    let front = prev.take(prev.len() - k);
    let back = prev.skip(prev.len() - k);
    assert(prev =~= front + back);
    (front, back)
}

/// A digest is written as two of the sixteen digits 0 to 9 and a to f for each
/// byte, the high half first.
pub proof fn hex_digits_are_lower_case(data: Seq<u8>, i: int)
    requires
        0 <= i < data.len(),
    ensures
        hex_text(data).len() == 2 * data.len(),
        seq![
            '0', '1', '2', '3', '4', '5', '6', '7', '8', '9', 'a', 'b', 'c', 'd', 'e', 'f',
        ][data[i] as int / 16] == hex_text(data)[2 * i],
        seq![
            '0', '1', '2', '3', '4', '5', '6', '7', '8', '9', 'a', 'b', 'c', 'd', 'e', 'f',
        ][data[i] as int % 16] == hex_text(data)[2 * i + 1],
{
    let high = data[i] as int / 16;
    let low = data[i] as int % 16;
    assert((2 * i) / 2 == i && (2 * i + 1) / 2 == i);
    assert(hex_text(data)[2 * i] == hex_digit(high));
    assert(hex_text(data)[2 * i + 1] == hex_digit(low));
    assert(0 <= high < 16 && 0 <= low < 16);
}

} // verus!
