//! How the launcher composes what it hands to the target: the arguments, and
//! the values of variables that hold lists of paths.

use vstd::prelude::*;
use vstd::string::*;
use crate::text::{chars_of, string_of, texts};

verus! {

/// The segments of a path list: what stands between the separators. A value
/// without a separator is one segment, the empty value too.
pub open spec fn split_list(value: Seq<char>, sep: char) -> Seq<Seq<char>>
    decreases value.len(),
{
    if value.len() == 0 {
        seq![Seq::empty()]
    } else {
        let before = split_list(value.drop_last(), sep);
        if value.last() == sep {
            before.push(Seq::empty())
        } else {
            before.drop_last().push(before.last().push(value.last()))
        }
    }
}

/// The segments written as one value, a separator between neighbours.
pub open spec fn join_list(segments: Seq<Seq<char>>, sep: char) -> Seq<char>
    decreases segments.len(),
{
    if segments.len() == 0 {
        Seq::empty()
    } else if segments.len() == 1 {
        segments[0]
    } else {
        join_list(segments.drop_last(), sep) + seq![sep] + segments.last()
    }
}

/// No segment holds the separator.
pub open spec fn all_plain(segments: Seq<Seq<char>>, sep: char) -> bool {
    forall|i: int| 0 <= i < segments.len() ==> !(#[trigger] segments[i]).contains(sep)
}

/// Every value has at least one segment, and no segment holds the separator.
pub proof fn lemma_split_segments(value: Seq<char>, sep: char)
    ensures
        split_list(value, sep).len() >= 1,
        all_plain(split_list(value, sep), sep),
    decreases value.len(),
{
    if value.len() > 0 {
        lemma_split_segments(value.drop_last(), sep);
        let before = split_list(value.drop_last(), sep);
        let now = split_list(value, sep);
        if value.last() != sep {
            let grown = before.last().push(value.last());
            assert forall|i: int| 0 <= i < now.len() implies !(#[trigger] now[i]).contains(sep) by {
                if i < now.len() - 1 {
                    assert(now[i] == before[i]);
                } else {
                    assert(now[i] == grown);
                    if grown.contains(sep) {
                        let k = choose|k: int| 0 <= k < grown.len() && grown[k] == sep;
                        assert(before.last()[k] == sep);
                    }
                }
            }
        } else {
            assert forall|i: int| 0 <= i < now.len() implies !(#[trigger] now[i]).contains(sep) by {
                if i < now.len() - 1 {
                    assert(now[i] == before[i]);
                }
            }
        }
    }
}

/// Text without a separator, written behind a value, lengthens the value's
/// last segment and changes nothing else.
pub proof fn lemma_split_extend(value: Seq<char>, more: Seq<char>, sep: char)
    requires
        !more.contains(sep),
    ensures
        split_list(value + more, sep) == split_list(value, sep).drop_last().push(
            split_list(value, sep).last() + more,
        ),
    decreases more.len(),
{
    lemma_split_segments(value, sep);
    let segments = split_list(value, sep);
    if more.len() == 0 {
        assert(value + more =~= value);
        assert(segments.last() + more =~= segments.last());
        assert(segments.drop_last().push(segments.last()) =~= segments);
    } else {
        let shorter = more.drop_last();
        assert(!shorter.contains(sep)) by {
            if shorter.contains(sep) {
                let k = choose|k: int| 0 <= k < shorter.len() && shorter[k] == sep;
                assert(more[k] == sep);
            }
        }
        lemma_split_extend(value, shorter, sep);
        assert((value + more).drop_last() =~= value + shorter);
        assert((value + more).last() == more.last());
        assert(more.last() != sep) by {
            assert(more[more.len() - 1] == more.last());
        }
        let before = split_list(value + shorter, sep);
        assert(before.drop_last() =~= segments.drop_last());
        assert(before.last().push(more.last()) =~= segments.last() + more);
    }
}

/// Joining segments that hold no separator and splitting the result gives
/// the segments back, as long as there is at least one.
pub proof fn lemma_split_join(segments: Seq<Seq<char>>, sep: char)
    requires
        segments.len() >= 1,
        all_plain(segments, sep),
    ensures
        split_list(join_list(segments, sep), sep) == segments,
    decreases segments.len(),
{
    let empty = Seq::<char>::empty();
    if segments.len() == 1 {
        lemma_split_extend(empty, segments[0], sep);
        assert(empty + segments[0] =~= segments[0]);
        assert(split_list(empty, sep) =~= seq![empty]);
        assert(seq![empty].drop_last().push(empty + segments[0]) =~= segments);
    } else {
        let front = segments.drop_last();
        assert(all_plain(front, sep)) by {
            assert forall|i: int| 0 <= i < front.len() implies !(#[trigger] front[i]).contains(
                sep,
            ) by {
                assert(front[i] == segments[i]);
            }
        }
        lemma_split_join(front, sep);
        let joined = join_list(front, sep);
        let cut = joined + seq![sep];
        assert(cut.drop_last() =~= joined);
        assert(cut.last() == sep);
        assert(split_list(cut, sep) == front.push(empty));
        assert(!segments.last().contains(sep)) by {
            assert(segments[segments.len() - 1] == segments.last());
        }
        lemma_split_extend(cut, segments.last(), sep);
        assert(front.push(empty).drop_last().push(empty + segments.last()) =~= segments);
    }
}

/// Splicing re-parses: where segments without a separator are put before and
/// after a list of such segments, and the whole is joined and split again,
/// what stands between the added segments is the list that was there. The
/// whole must hold at least one segment.
pub proof fn lemma_splice_reparses(
    prepend: Seq<Seq<char>>,
    current: Seq<Seq<char>>,
    append: Seq<Seq<char>>,
    sep: char,
)
    requires
        all_plain(prepend, sep),
        all_plain(current, sep),
        all_plain(append, sep),
        prepend.len() + current.len() + append.len() >= 1,
    ensures
        ({
            let parsed = split_list(join_list(prepend + current + append, sep), sep);
            &&& parsed.len() == prepend.len() + current.len() + append.len()
            &&& parsed.subrange(0, prepend.len() as int) == prepend
            &&& parsed.subrange(prepend.len() as int, parsed.len() - append.len()) == current
            &&& parsed.subrange(parsed.len() - append.len(), parsed.len() as int) == append
        }),
{
    let whole = prepend + current + append;
    assert(all_plain(whole, sep)) by {
        assert forall|i: int| 0 <= i < whole.len() implies !(#[trigger] whole[i]).contains(sep) by {
            if i < prepend.len() {
                assert(whole[i] == prepend[i]);
            } else if i < prepend.len() + current.len() {
                assert(whole[i] == current[i - prepend.len()]);
            } else {
                assert(whole[i] == append[i - prepend.len() - current.len()]);
            }
        }
    }
    lemma_split_join(whole, sep);
    assert(whole.subrange(0, prepend.len() as int) =~= prepend);
    assert(whole.subrange(prepend.len() as int, whole.len() - append.len()) =~= current);
    assert(whole.subrange(whole.len() - append.len(), whole.len() as int) =~= append);
}

/// The value of a variable after splicing: the segments to prepend, the
/// segments of the value it had (none where it had no value), the segments
/// to append, joined.
pub open spec fn spliced(
    current: Option<Seq<char>>,
    prepend: Seq<Seq<char>>,
    append: Seq<Seq<char>>,
    sep: char,
) -> Seq<char> {
    let segments = match current {
        Some(value) => split_list(value, sep),
        None => Seq::empty(),
    };
    join_list(prepend + segments + append, sep)
}

/// Splicing into a variable that has a value re-parses, whatever the value:
/// splitting the new value and taking the added segments away at both ends
/// leaves the segments of the old value.
pub proof fn lemma_spliced_value_reparses(
    value: Seq<char>,
    prepend: Seq<Seq<char>>,
    append: Seq<Seq<char>>,
    sep: char,
)
    requires
        all_plain(prepend, sep),
        all_plain(append, sep),
    ensures
        ({
            let parsed = split_list(spliced(Some(value), prepend, append, sep), sep);
            &&& parsed.len() == prepend.len() + split_list(value, sep).len() + append.len()
            &&& parsed.subrange(prepend.len() as int, parsed.len() - append.len()) == split_list(
                value,
                sep,
            )
        }),
{
    lemma_split_segments(value, sep);
    lemma_splice_reparses(prepend, split_list(value, sep), append, sep);
}

/// The arguments for the target: those to prepend, those of the user, those
/// to append, in that order, none dropped and none added.
pub fn compose(prepend: &Vec<String>, user: &Vec<String>, append: &Vec<String>) -> (r: Vec<String>)
    ensures
        texts(r@) == texts(prepend@) + texts(user@) + texts(append@),
        r.len() == prepend.len() + user.len() + append.len(),
{
    let mut r: Vec<String> = Vec::new();
    extend_with(&mut r, prepend);
    extend_with(&mut r, user);
    extend_with(&mut r, append);
    assert(texts(r@) =~= texts(prepend@) + texts(user@) + texts(append@));
    assert(texts(r@).len() == r.len());
    r
}

fn extend_with(list: &mut Vec<String>, more: &Vec<String>)
    ensures
        texts(final(list)@) == texts(old(list)@) + texts(more@),
{
    let mut i: usize = 0;
    assert(texts(list@) =~= texts(old(list)@) + texts(more@).take(0));
    while i < more.len()
        invariant
            i <= more.len(),
            texts(list@) == texts(old(list)@) + texts(more@).take(i as int),
        decreases more.len() - i,
    {
        let ghost before = list@;
        let item = more[i].clone();
        list.push(item);
        proof {
            assert(list@ == before.push(item));
            assert(texts(before).len() == before.len());
            assert forall|j: int| 0 <= j < before.len() implies texts(list@)[j] == texts(
                before,
            )[j] by {}
            assert(texts(list@) =~= texts(before).push(item@));
            assert(texts(more@).take(i + 1) =~= texts(more@).take(i as int).push(more@[i as int]@));
            assert(texts(list@) =~= texts(old(list)@) + texts(more@).take(i + 1));
        }
        i = i + 1;
    }
    assert(texts(more@).take(more.len() as int) =~= texts(more@));
}

/// The segments of a path list.
pub fn split_path_list(value: &str, sep: char) -> (r: Vec<String>)
    ensures
        texts(r@) == split_list(value@, sep),
{
    let chars = chars_of(value);
    let mut done: Vec<String> = Vec::new();
    let mut current: Vec<char> = Vec::new();
    let mut i: usize = 0;
    assert(chars@.take(0) =~= Seq::empty());
    assert(texts(done@).push(current@) =~= seq![Seq::<char>::empty()]);
    while i < chars.len()
        invariant
            i <= chars.len(),
            texts(done@).push(current@) == split_list(chars@.take(i as int), sep),
        decreases chars.len() - i,
    {
        let c = chars[i];
        let ghost before = texts(done@).push(current@);
        proof {
            let next = chars@.take(i + 1);
            assert(next.drop_last() =~= chars@.take(i as int));
            assert(next.last() == c);
        }
        if c == sep {
            let ghost old_done = done@;
            let segment = string_of(&current);
            done.push(segment);
            current = Vec::new();
            proof {
                assert(done@ == old_done.push(segment));
                assert(texts(done@) =~= before);
            }
        } else {
            current.push(c);
            proof {
                assert(before.drop_last() =~= texts(done@));
                assert(before.last().push(c) =~= current@);
            }
        }
        i = i + 1;
    }
    assert(chars@.take(chars.len() as int) =~= chars@);
    let ghost old_done = done@;
    let segment = string_of(&current);
    done.push(segment);
    proof {
        assert(done@ == old_done.push(segment));
        assert(texts(done@) =~= texts(old_done).push(current@));
    }
    done
}

/// The segments written as one path list.
pub fn join_path_list(segments: &Vec<String>, sep: char) -> (r: String)
    ensures
        r@ == join_list(texts(segments@), sep),
{
    let mut r = String::new();
    let mut i: usize = 0;
    assert(texts(segments@).take(0) =~= Seq::empty());
    while i < segments.len()
        invariant
            i <= segments.len(),
            r@ == join_list(texts(segments@).take(i as int), sep),
        decreases segments.len() - i,
    {
        proof {
            let next = texts(segments@).take(i + 1);
            assert(next.drop_last() =~= texts(segments@).take(i as int));
            assert(next.last() == segments@[i as int]@);
            if i == 0 {
                assert(Seq::<char>::empty() + segments@[0]@ =~= segments@[0]@);
            }
        }
        if i > 0 {
            r.push(sep);
        }
        r.append(segments[i].as_str());
        proof {
            if i > 0 {
                let front = join_list(texts(segments@).take(i as int), sep);
                assert(front.push(sep) + segments@[i as int]@ =~= front + seq![sep]
                    + segments@[i as int]@);
            }
        }
        i = i + 1;
    }
    assert(texts(segments@).take(segments.len() as int) =~= texts(segments@));
    r
}

} // verus!
