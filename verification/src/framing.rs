//! Builds the prompt from a document and its selections, and pads the document's
//! tail with newlines so that the reply has a place to go.
//!
//! Offsets count characters of the document.

use vstd::prelude::*;
use vstd::string::*;

verus! {

/// A selected span of the document, `start` included and `end` excluded.
#[derive(Clone, Copy, Debug, PartialEq, Eq, Structural)]
pub struct SelectionRange {
    pub start: usize,
    pub end: usize,
}

/// The text put in front of each selection.
pub open spec fn left_marker() -> Seq<char> {
    seq!['-', '>', '-', '>']
}

/// The text put behind each selection.
pub open spec fn right_marker() -> Seq<char> {
    seq!['<', '-', '<', '-']
}

/// The selections lie inside a text of `len` characters, come in the order of
/// their position, and none overlaps another. Two may touch, and one may be empty.
pub open spec fn selections_ordered(selections: Seq<SelectionRange>, len: int) -> bool {
    &&& forall|i: int|
        0 <= i < selections.len() ==> (#[trigger] selections[i]).start <= selections[i].end
            && selections[i].end <= len
    &&& forall|i: int, j: int|
        0 <= i < j < selections.len() ==> (#[trigger] selections[i]).end
            <= (#[trigger] selections[j]).start
}

/// The prompt: the document with every selection wrapped in the two markers.
/// All that precedes the last selection is framed in the same way, then come the
/// last selection between its markers and the rest of the document.
pub open spec fn framed(doc: Seq<char>, selections: Seq<SelectionRange>) -> Seq<char>
    decreases selections.len(),
{
    if selections.len() == 0 {
        doc
    } else {
        let last = selections.last();
        framed(doc.take(last.start as int), selections.drop_last()) + left_marker() + doc.subrange(
            last.start as int,
            last.end as int,
        ) + right_marker() + doc.skip(last.end as int)
    }
}

/// Says whether the selections are ordered, disjoint and inside a text of `len`
/// characters.
pub fn selections_are_ordered(selections: &Vec<SelectionRange>, len: usize) -> (ok: bool)
    ensures
        ok == selections_ordered(selections@, len as int),
{
    let mut floor: usize = 0;
    let mut k: usize = 0;
    while k < selections.len()
        invariant
            k <= selections.len(),
            selections_ordered(selections@.take(k as int), len as int),
            k == 0 ==> floor == 0,
            k > 0 ==> floor == selections@[k - 1].end,
        decreases selections.len() - k,
    {
        let s = selections[k];
        if s.start < floor || s.end < s.start || len < s.end {
            proof {
                if selections_ordered(selections@, len as int) {
                    if k > 0 {
                        assert(selections@[k - 1].end <= selections@[k as int].start);
                    }
                }
            }
            return false;
        }
        proof {
            let before = selections@.take(k as int);
            let after = selections@.take(k + 1);
            assert forall|i: int, j: int| 0 <= i < j < after.len() implies (#[trigger] after[i]).end
                <= (#[trigger] after[j]).start by {
                if j < k {
                    assert(before[i].end <= before[j].start);
                } else if i + 1 < k {
                    assert(before[i].end <= before[k - 1].start);
                    assert(before[k - 1].start <= before[k - 1].end);
                }
            }
        }
        floor = s.end;
        k = k + 1;
    }
    assert(selections@.take(k as int) == selections@);
    true
}

/// Framing a longer prefix of the document with the same selections only adds the
/// characters by which the prefix grew.
proof fn framed_grows_with_prefix(
    doc: Seq<char>,
    selections: Seq<SelectionRange>,
    shorter: int,
    longer: int,
)
    requires
        selections_ordered(selections, shorter),
        0 <= shorter <= longer <= doc.len(),
    ensures
        framed(doc.take(longer), selections) == framed(doc.take(shorter), selections)
            + doc.subrange(shorter, longer),
{
    if selections.len() == 0 {
        assert(doc.take(longer) =~= doc.take(shorter) + doc.subrange(shorter, longer));
    } else {
        let last = selections.last();
        let start = last.start as int;
        let end = last.end as int;
        assert(doc.take(longer).take(start) =~= doc.take(shorter).take(start));
        assert(doc.take(longer).subrange(start, end) =~= doc.take(shorter).subrange(start, end));
        assert(doc.take(longer).skip(end) =~= doc.take(shorter).skip(end) + doc.subrange(
            shorter,
            longer,
        ));
        assert(framed(doc.take(longer), selections) =~= framed(doc.take(shorter), selections)
            + doc.subrange(shorter, longer));
    }
}

/// Wraps every selection of `doc` in `->->` and `<-<-` and leaves the rest of
/// the text as it is. With no selection the prompt is the document itself.
pub fn frame_selections(doc: &str, selections: &Vec<SelectionRange>) -> (prompt: String)
    requires
        selections_ordered(selections@, doc@.len() as int),
    ensures
        prompt@ == framed(doc@, selections@),
{
    let len: usize = doc.unicode_len();
    let mut prompt = String::new();
    let mut cursor: usize = 0;
    let mut k: usize = 0;
    proof {
        assert(selections@.take(0) =~= Seq::<SelectionRange>::empty());
        assert(doc@.take(0) =~= Seq::<char>::empty());
    }
    while k < selections.len()
        invariant
            k <= selections.len(),
            len == doc@.len(),
            selections_ordered(selections@, len as int),
            selections_ordered(selections@.take(k as int), cursor as int),
            cursor <= len,
            k == 0 ==> cursor == 0,
            k > 0 ==> cursor == selections@[k - 1].end,
            prompt@ == framed(doc@.take(cursor as int), selections@.take(k as int)),
        decreases selections.len() - k,
    {
        let s = selections[k];
        proof {
            assert(selections@[k as int].start <= selections@[k as int].end <= len);
            if k > 0 {
                assert(selections@[k - 1].end <= selections@[k as int].start);
            }
            framed_grows_with_prefix(
                doc@,
                selections@.take(k as int),
                cursor as int,
                s.start as int,
            );
            let upto = selections@.take(k + 1);
            assert(upto.last() == s);
            assert(upto.drop_last() =~= selections@.take(k as int));
            assert(doc@.take(s.end as int).take(s.start as int) =~= doc@.take(s.start as int));
            assert(doc@.take(s.end as int).subrange(s.start as int, s.end as int) =~= doc@.subrange(
                s.start as int,
                s.end as int,
            ));
            assert(doc@.take(s.end as int).skip(s.end as int) =~= Seq::<char>::empty());
            reveal_strlit("->->");
            reveal_strlit("<-<-");
            assert("->->"@ =~= left_marker());
            assert("<-<-"@ =~= right_marker());
        }
        prompt.append(doc.substring_char(cursor, s.start));
        prompt.append("->->");
        prompt.append(doc.substring_char(s.start, s.end));
        prompt.append("<-<-");
        proof {
            assert(prompt@ =~= framed(doc@.take(s.end as int), selections@.take(k + 1)));
            assert forall|i: int, j: int|
                0 <= i < j < selections@.take(k + 1).len() implies (#[trigger] selections@.take(
                k + 1,
            )[i]).end <= (#[trigger] selections@.take(k + 1)[j]).start by {
                assert(selections@[i].end <= selections@[j].start);
            }
            assert forall|i: int| 0 <= i < selections@.take(k + 1).len() implies (
            #[trigger] selections@.take(k + 1)[i]).start <= selections@.take(k + 1)[i].end
                && selections@.take(k + 1)[i].end <= s.end by {
                assert(selections@[i].start <= selections@[i].end);
                if i < k {
                    assert(selections@[i].end <= selections@[k as int].start);
                }
            }
        }
        cursor = s.end;
        k = k + 1;
    }
    proof {
        assert(selections@.take(k as int) =~= selections@);
        framed_grows_with_prefix(doc@, selections@, cursor as int, len as int);
        assert(doc@.take(len as int) =~= doc@);
    }
    if cursor < len {
        prompt.append(doc.substring_char(cursor, len));
    } else {
        assert(doc@.subrange(cursor as int, len as int) =~= Seq::<char>::empty());
    }
    prompt
}

/// Where the markers stand in the prompt, in order: for each selection the place
/// of its left marker, then that of its right marker. Every marker before a place
/// has pushed it four characters to the right.
pub open spec fn marker_sites(selections: Seq<SelectionRange>) -> Seq<int> {
    Seq::new(
        (2 * selections.len()) as nat,
        |j: int|
            if j % 2 == 0 {
                selections[j / 2].start + 4 * j
            } else {
                selections[j / 2].end + 4 * j
            },
    )
}

/// `text` without the four characters that begin at each of `sites`.
pub open spec fn without_markers(text: Seq<char>, sites: Seq<int>) -> Seq<char>
    decreases sites.len(),
{
    if sites.len() == 0 {
        text
    } else {
        without_markers(text.take(sites.last()), sites.drop_last()) + text.skip(sites.last() + 4)
    }
}

/// The selections before the last one are ordered inside the text that precedes
/// the last one.
proof fn earlier_selections_ordered(selections: Seq<SelectionRange>, len: int)
    requires
        selections_ordered(selections, len),
        selections.len() > 0,
    ensures
        selections_ordered(selections.drop_last(), selections.last().start as int),
        selections.last().start <= selections.last().end <= len,
{
    let n = selections.len() as int;
    let earlier = selections.drop_last();
    assert(selections[n - 1].start <= selections[n - 1].end <= len);
    assert forall|i: int| 0 <= i < earlier.len() implies (#[trigger] earlier[i]).start
        <= earlier[i].end && earlier[i].end <= selections.last().start by {
        assert(selections[i].start <= selections[i].end);
        assert(selections[i].end <= selections[n - 1].start);
    }
    assert forall|i: int, j: int| 0 <= i < j < earlier.len() implies (#[trigger] earlier[i]).end
        <= (#[trigger] earlier[j]).start by {
        assert(selections[i].end <= selections[j].start);
    }
}

/// The sites of a list of selections are those of all but the last, then the two
/// of the last.
proof fn marker_sites_unfold(selections: Seq<SelectionRange>)
    requires
        selections.len() > 0,
    ensures
        marker_sites(selections) == marker_sites(selections.drop_last()).push(
            selections.last().start + 8 * (selections.len() - 1),
        ).push(selections.last().end + 8 * (selections.len() - 1) + 4),
{
    let n = selections.len() as int;
    let earlier = selections.drop_last();
    let sites = marker_sites(selections);
    let built = marker_sites(earlier).push(selections.last().start + 8 * (n - 1)).push(
        selections.last().end + 8 * (n - 1) + 4,
    );
    assert(sites.len() == built.len());
    assert forall|j: int| 0 <= j < sites.len() implies sites[j] == built[j] by {
        if j < 2 * (n - 1) {
            assert(earlier[j / 2] == selections[j / 2]);
        }
    }
    assert(sites =~= built);
}

/// Each selection makes the prompt eight characters longer than the document.
pub proof fn framed_length(doc: Seq<char>, selections: Seq<SelectionRange>)
    requires
        selections_ordered(selections, doc.len() as int),
    ensures
        framed(doc, selections).len() == doc.len() + 8 * selections.len(),
    decreases selections.len(),
{
    if selections.len() > 0 {
        earlier_selections_ordered(selections, doc.len() as int);
        framed_length(doc.take(selections.last().start as int), selections.drop_last());
    }
}

/// Taking the markers out of `before + left + chosen + right + rest` at the two
/// places where they stand leaves the three texts around them.
proof fn last_two_markers_removed(
    before: Seq<char>,
    chosen: Seq<char>,
    rest: Seq<char>,
    inner: Seq<int>,
)
    ensures
        without_markers(
            before + left_marker() + chosen + right_marker() + rest,
            inner.push(before.len() as int).push(before.len() as int + 4 + chosen.len()),
        ) == without_markers(before, inner) + chosen + rest,
{
    let text = before + left_marker() + chosen + right_marker() + rest;
    let one = inner.push(before.len() as int);
    let two = one.push(before.len() as int + 4 + chosen.len());
    let upto_right = before + left_marker() + chosen;
    assert(two.drop_last() =~= one);
    assert(one.drop_last() =~= inner);
    assert(text.take(two.last()) =~= upto_right);
    assert(text.skip(two.last() + 4) =~= rest);
    assert(upto_right.take(one.last()) =~= before);
    assert(upto_right.skip(one.last() + 4) =~= chosen);
    assert(without_markers(upto_right, one) == without_markers(before, inner) + chosen);
}

/// With the markers taken out, the prompt is the document again, character for
/// character. This holds also of a document that itself contains the markers'
/// text, because the markers are taken out where framing put them.
pub proof fn markers_removed_gives_document(doc: Seq<char>, selections: Seq<SelectionRange>)
    requires
        selections_ordered(selections, doc.len() as int),
    ensures
        without_markers(framed(doc, selections), marker_sites(selections)) == doc,
    decreases selections.len(),
{
    if selections.len() > 0 {
        let last = selections.last();
        let earlier = selections.drop_last();
        let head = doc.take(last.start as int);
        let chosen = doc.subrange(last.start as int, last.end as int);
        let rest = doc.skip(last.end as int);
        earlier_selections_ordered(selections, doc.len() as int);
        markers_removed_gives_document(head, earlier);
        framed_length(head, earlier);
        marker_sites_unfold(selections);
        last_two_markers_removed(framed(head, earlier), chosen, rest, marker_sites(earlier));
        assert(head + chosen + rest =~= doc);
    }
}

/// In the prompt a left marker stands where each selection begins and a right
/// marker where it ends, the left one before the right one.
pub proof fn markers_stand_at_sites(doc: Seq<char>, selections: Seq<SelectionRange>, i: int)
    requires
        selections_ordered(selections, doc.len() as int),
        0 <= i < selections.len(),
    ensures
        ({
            let prompt = framed(doc, selections);
            let left = marker_sites(selections)[2 * i];
            let right = marker_sites(selections)[2 * i + 1];
            &&& 0 <= left && left + 4 <= right && right + 4 <= prompt.len()
            &&& prompt.subrange(left, left + 4) == left_marker()
            &&& prompt.subrange(right, right + 4) == right_marker()
        }),
    decreases selections.len(),
{
    let n = selections.len() as int;
    let last = selections.last();
    let earlier = selections.drop_last();
    let head = doc.take(last.start as int);
    let chosen = doc.subrange(last.start as int, last.end as int);
    let rest = doc.skip(last.end as int);
    let before = framed(head, earlier);
    let prompt = framed(doc, selections);
    let left = marker_sites(selections)[2 * i];
    let right = marker_sites(selections)[2 * i + 1];
    earlier_selections_ordered(selections, doc.len() as int);
    framed_length(head, earlier);
    framed_length(doc, selections);
    marker_sites_unfold(selections);
    assert(prompt == before + left_marker() + chosen + right_marker() + rest);
    if i < n - 1 {
        markers_stand_at_sites(head, earlier, i);
        assert(marker_sites(earlier)[2 * i] == left);
        assert(marker_sites(earlier)[2 * i + 1] == right);
        assert(prompt.subrange(left, left + 4) =~= before.subrange(left, left + 4));
        assert(prompt.subrange(right, right + 4) =~= before.subrange(right, right + 4));
    } else {
        assert(left == before.len());
        assert(right == before.len() + 4 + chosen.len());
        assert(prompt.subrange(left, left + 4) =~= left_marker());
        assert(prompt.subrange(right, right + 4) =~= right_marker());
    }
}

/// How many newline characters end the text.
pub open spec fn trailing_newlines(text: Seq<char>) -> nat
    decreases text.len(),
{
    if text.len() > 0 && text.last() == '\n' {
        1 + trailing_newlines(text.drop_last())
    } else {
        0
    }
}

/// The trailing newlines as they are counted: no further than four.
pub open spec fn counted_newlines(text: Seq<char>) -> nat {
    if trailing_newlines(text) < 4 {
        trailing_newlines(text)
    } else {
        4
    }
}

/// A text of `n` newline characters.
pub open spec fn newlines(n: nat) -> Seq<char> {
    Seq::new(n, |i: int| '\n')
}

/// What is appended to the document: the newlines that the counted ones lack to
/// make four. Nothing is ever taken away.
pub open spec fn padding(text: Seq<char>) -> Seq<char> {
    newlines((4 - counted_newlines(text)) as nat)
}

/// The document after the padding has been appended.
pub open spec fn padded(text: Seq<char>) -> Seq<char> {
    text + padding(text)
}

/// Where the reply is inserted: two characters before the end of the padded
/// document.
pub open spec fn anchor_offset(text: Seq<char>) -> int {
    padded(text).len() - 2
}

/// A text whose last `n` characters are newlines ends with at least `n` of them,
/// and with exactly `n` if the character before them is none, or if there is no
/// character before them.
proof fn trailing_newlines_counted(text: Seq<char>, n: nat)
    requires
        n <= text.len(),
        forall|i: int| text.len() - n <= i < text.len() ==> text[i] == '\n',
    ensures
        trailing_newlines(text) >= n,
        n == text.len() || text[text.len() - 1 - n] != '\n' ==> trailing_newlines(text) == n,
    decreases n,
{
    if n > 0 {
        assert(text.last() == '\n');
        trailing_newlines_counted(text.drop_last(), (n - 1) as nat);
    }
}

/// Appending newlines adds them to the trailing ones.
proof fn trailing_newlines_appended(text: Seq<char>, n: nat)
    ensures
        trailing_newlines(text + newlines(n)) == trailing_newlines(text) + n,
    decreases n,
{
    if n == 0 {
        assert(text + newlines(0) =~= text);
    } else {
        let longer = text + newlines(n);
        assert(longer.last() == '\n');
        assert(longer.drop_last() =~= text + newlines((n - 1) as nat));
        trailing_newlines_appended(text, (n - 1) as nat);
    }
}

/// The last `n` characters of a text that ends with `n` newlines or more.
proof fn trailing_newlines_are_newlines(text: Seq<char>, n: nat)
    requires
        n <= trailing_newlines(text),
    ensures
        n <= text.len(),
        text.skip(text.len() - n) == newlines(n),
    decreases n,
{
    if n == 0 {
        assert(text.skip(text.len() as int) =~= newlines(0));
    } else {
        trailing_newlines_are_newlines(text.drop_last(), (n - 1) as nat);
        assert(text.skip(text.len() - n) =~= text.drop_last().skip(text.len() - n).push('\n'));
        assert(newlines(n) =~= newlines((n - 1) as nat).push('\n'));
    }
}

/// After the padding the document ends with exactly four newlines where it ended
/// with four or fewer before, and with as many as before where it ended with
/// more: newlines are appended, never removed.
pub proof fn padding_leaves_four_newlines(text: Seq<char>)
    ensures
        trailing_newlines(text) <= 4 ==> trailing_newlines(padded(text)) == 4,
        trailing_newlines(text) > 4 ==> padded(text) == text,
        padded(text).take(text.len() as int) == text,
        padding(text).len() + counted_newlines(text) == 4,
{
    trailing_newlines_appended(text, (4 - counted_newlines(text)) as nat);
    assert(padded(text).take(text.len() as int) =~= text);
    if trailing_newlines(text) > 4 {
        assert(padded(text) =~= text);
    }
}

/// The anchor lies strictly before the end of the padded document, with two of
/// the trailing newlines before it and two behind it.
pub proof fn anchor_inside_padding(text: Seq<char>)
    ensures
        2 <= anchor_offset(text) < padded(text).len(),
        anchor_offset(text) + 2 == padded(text).len(),
        padded(text).subrange(anchor_offset(text) - 2, anchor_offset(text) + 2) == newlines(4),
{
    trailing_newlines_appended(text, (4 - counted_newlines(text)) as nat);
    trailing_newlines_are_newlines(padded(text), 4);
    assert(padded(text).subrange(anchor_offset(text) - 2, anchor_offset(text) + 2) =~= padded(
        text,
    ).skip(padded(text).len() - 4));
}

/// Counts the newline characters that end the document, going backward from its
/// end and stopping at four.
pub fn count_trailing_newlines(doc: &str) -> (count: usize)
    ensures
        count == counted_newlines(doc@),
{
    let len: usize = doc.unicode_len();
    let limit: usize = if len < 4 {
        len
    } else {
        4
    };
    let mut count: usize = 0;
    let mut more: bool = true;
    while more && count < limit
        invariant
            len == doc@.len(),
            limit <= len,
            limit <= 4,
            count <= limit,
            forall|i: int| len - count <= i < len ==> doc@[i] == '\n',
            !more ==> count < len && doc@[len - 1 - count] != '\n',
        decreases (if more { 1int } else { 0int }) + limit - count,
    {
        if doc.get_char(len - 1 - count) == '\n' {
            count = count + 1;
        } else {
            more = false;
        }
    }
    proof {
        trailing_newlines_counted(doc@, count as nat);
    }
    count
}

/// The newlines to append to the document so that it ends with four.
pub fn newline_padding(doc: &str) -> (suffix: String)
    ensures
        suffix@ == padding(doc@),
{
    let missing: usize = 4 - count_trailing_newlines(doc);
    let mut suffix = String::new();
    let mut k: usize = 0;
    proof {
        assert(suffix@ =~= newlines(0));
    }
    while k < missing
        invariant
            k <= missing,
            suffix@ == newlines(k as nat),
        decreases missing - k,
    {
        proof {
            reveal_strlit("\n");
            assert(newlines(k as nat) + "\n"@ =~= newlines((k + 1) as nat));
        }
        suffix.append("\n");
        k = k + 1;
    }
    suffix
}

/// What one invocation hands on: the prompt, the newlines to append to the
/// document before anything else is done with it, the end of the document,
/// where they are appended, and the place in the padded document where the
/// reply goes.
#[derive(Clone, Debug, PartialEq, Eq)]
pub struct Preparation {
    pub user_message: String,
    pub suffix: String,
    pub suffix_offset: usize,
    pub insertion_offset: usize,
}

/// Frames the selections of `doc` and places the anchor. The prompt is made
/// from the document as it is given, before the padding. Nothing is prepared
/// for selections that are out of order, overlap or leave the document, nor for
/// a document so long that the anchor's offset cannot be represented.
pub fn prepare_prompt(doc: &str, selections: &Vec<SelectionRange>) -> (prepared: Option<
    Preparation,
>)
    ensures
        prepared is Some <==> selections_ordered(selections@, doc@.len() as int) && anchor_offset(
            doc@,
        ) <= usize::MAX,
        prepared matches Some(p) ==> {
            &&& p.user_message@ == framed(doc@, selections@)
            &&& p.suffix@ == padding(doc@)
            &&& p.suffix_offset == doc@.len()
            &&& p.insertion_offset == anchor_offset(doc@)
        },
{
    let len: usize = doc.unicode_len();
    if !selections_are_ordered(selections, len) {
        return None;
    }
    let suffix = newline_padding(doc);
    let added: usize = suffix.as_str().unicode_len();
    proof {
        anchor_inside_padding(doc@);
    }
    if added >= 2 && len > usize::MAX - (added - 2) {
        return None;
    }
    let insertion_offset: usize = if added >= 2 {
        len + (added - 2)
    } else {
        len - (2 - added)
    };
    let user_message = frame_selections(doc, selections);
    Some(Preparation { user_message, suffix, suffix_offset: len, insertion_offset })
}

} // verus!
