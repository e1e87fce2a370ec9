//! Filter configuration for the message queries.
use vstd::prelude::*;

use crate::text::{chars_of, contains_chars, spec_contains, spec_split, split_chars, string_from_chars};

verus! {

/// Is a sequence of identifiers strictly increasing?
pub open spec fn spec_strictly_sorted(s: Seq<i32>) -> bool {
    forall|i: int, j: int| 0 <= i < j < s.len() ==> s[i] < s[j]
}

/// Sort the given identifiers and drop duplicates.
pub fn sorted_unique(input: &Vec<i32>) -> (r: Vec<i32>)
    ensures
        spec_strictly_sorted(r@),
        forall|x: i32| r@.contains(x) <==> input@.contains(x),
{
    let mut out: Vec<i32> = Vec::new();
    let mut i: usize = 0;
    while i < input.len()
        invariant
            i <= input@.len(),
            spec_strictly_sorted(out@),
            forall|x: i32| out@.contains(x) <==> input@.take(i as int).contains(x),
        decreases input@.len() - i,
    {
        let ghost pre = out@;
        let x = input[i];
        // Find the insertion point.
        let mut j: usize = 0;
        while j < out.len() && out[j] < x
            invariant
                out@ == pre,
                j <= out@.len(),
                forall|k: int| 0 <= k < j ==> out@[k] < x,
            decreases out@.len() - j,
        {
            j = j + 1;
        }
        if j == out.len() || out[j] != x {
            out.insert(j, x);
            proof {
                assert forall|a: int, b: int| 0 <= a < b < out@.len() implies out@[a] < out@[b] by {
                    if a < j && b > j {
                        assert(out@[a] == pre[a]);
                        assert(out@[b] == pre[b - 1]);
                    } else if a == j && b > j {
                        assert(out@[b] == pre[b - 1]);
                        assert(pre[b - 1] >= x);
                        assert(pre[b - 1] != x) by {
                            if pre[b - 1] == x {
                                assert(pre.contains(x));
                                assert(input@.take(i as int).contains(x));
                            }
                        }
                    } else if b == j {
                        assert(out@[a] == pre[a]);
                    } else if a < j && b < j {
                        assert(out@[a] == pre[a]);
                        assert(out@[b] == pre[b]);
                    } else {
                        assert(out@[a] == pre[a - 1]);
                        assert(out@[b] == pre[b - 1]);
                    }
                }
                assert forall|y: i32| out@.contains(y) <==> (input@.take(i + 1).contains(y)) by {
                    assert(input@.take(i + 1).drop_last() =~= input@.take(i as int));
                    if out@.contains(y) {
                        let w = choose|w: int| 0 <= w < out@.len() && out@[w] == y;
                        if w == j {
                            assert(input@.take(i + 1).last() == x);
                            assert(input@.take(i + 1).contains(y));
                        } else if w < j {
                            assert(pre[w] == y);
                            assert(pre.contains(y));
                            assert(input@.take(i as int).contains(y));
                            let v = choose|v: int|
                                0 <= v < input@.take(i as int).len() && #[trigger] input@.take(
                                    i as int,
                                )[v] == y;
                            assert(input@.take(i + 1)[v] == y);
                        } else {
                            assert(pre[w - 1] == y);
                            assert(pre.contains(y));
                            assert(input@.take(i as int).contains(y));
                            let v = choose|v: int|
                                0 <= v < input@.take(i as int).len() && #[trigger] input@.take(
                                    i as int,
                                )[v] == y;
                            assert(input@.take(i + 1)[v] == y);
                        }
                    }
                    if input@.take(i + 1).contains(y) {
                        let w = choose|w: int|
                            0 <= w < input@.take(i + 1).len() && #[trigger] input@.take(i + 1)[w] == y;
                        if w == i {
                            assert(y == x);
                            assert(out@[j as int] == x);
                            assert(out@.contains(y));
                        } else {
                            assert(input@.take(i as int)[w] == y);
                            assert(input@.take(i as int).contains(y));
                            assert(pre.contains(y));
                            let v = choose|v: int| 0 <= v < pre.len() && pre[v] == y;
                            if v < j {
                                assert(out@[v] == y);
                            } else {
                                assert(out@[v + 1] == y);
                            }
                            assert(out@.contains(y));
                        }
                    }
                }
            }
        } else {
            proof {
                assert(out@[j as int] == x);
                assert(out@.contains(x));
                assert forall|y: i32| out@.contains(y) <==> input@.take(i + 1).contains(y) by {
                    assert(input@.take(i + 1).drop_last() =~= input@.take(i as int));
                    if input@.take(i + 1).contains(y) {
                        let w = choose|w: int|
                            0 <= w < input@.take(i + 1).len() && #[trigger] input@.take(i + 1)[w] == y;
                        if w == i {
                            assert(y == x);
                        } else {
                            assert(input@.take(i as int)[w] == y);
                            assert(input@.take(i as int).contains(y));
                        }
                    }
                    if out@.contains(y) {
                        assert(input@.take(i as int).contains(y));
                        let v = choose|v: int|
                            0 <= v < input@.take(i as int).len() && #[trigger] input@.take(
                                i as int,
                            )[v] == y;
                        assert(input@.take(i + 1)[v] == y);
                    }
                }
            }
        }
        i = i + 1;
    }
    proof {
        assert(input@.take(input@.len() as int) =~= input@);
    }
    out
}

/// Filter configuration for a message query: a row limit and optional
/// identifier filters. Identifier lists are kept sorted and without
/// duplicates.
#[derive(Debug, PartialEq, Eq)]
pub struct QueryContext {
    /// The maximum number of rows to fetch.
    pub limit: Option<i32>,
    /// The handle ids to select.
    pub selected_handle_ids: Option<Vec<i32>>,
    /// The chat ids to select.
    pub selected_chat_ids: Option<Vec<i32>>,
}

impl Default for QueryContext {
    /// A context with no filters.
    fn default() -> (r: Self)
        ensures
            r.limit is None,
            r.selected_handle_ids is None,
            r.selected_chat_ids is None,
    {
        QueryContext { limit: None, selected_handle_ids: None, selected_chat_ids: None }
    }
}

impl QueryContext {
    /// Bound the number of messages retrieved.
    pub fn set_limit(&mut self, limit: i32)
        ensures
            final(self).limit == Some(limit),
            final(self).selected_handle_ids == old(self).selected_handle_ids,
            final(self).selected_chat_ids == old(self).selected_chat_ids,
    {
        self.limit = Some(limit);
    }

    /// Select a set of handle ids; an empty set clears the filter.
    pub fn set_selected_handle_ids(&mut self, selected_handle_ids: Vec<i32>)
        ensures
            final(self).limit == old(self).limit,
            final(self).selected_chat_ids == old(self).selected_chat_ids,
            match final(self).selected_handle_ids {
                Some(ids) => selected_handle_ids@.len() > 0 && spec_strictly_sorted(ids@) && (
                forall|x: i32| ids@.contains(x) <==> selected_handle_ids@.contains(x)),
                None => selected_handle_ids@.len() == 0,
            },
    {
        if selected_handle_ids.len() == 0 {
            self.selected_handle_ids = None;
        } else {
            self.selected_handle_ids = Some(sorted_unique(&selected_handle_ids));
        }
    }

    /// Select a set of chat ids; an empty set clears the filter.
    pub fn set_selected_chat_ids(&mut self, selected_chat_ids: Vec<i32>)
        ensures
            final(self).limit == old(self).limit,
            final(self).selected_handle_ids == old(self).selected_handle_ids,
            match final(self).selected_chat_ids {
                Some(ids) => selected_chat_ids@.len() > 0 && spec_strictly_sorted(ids@) && (
                forall|x: i32| ids@.contains(x) <==> selected_chat_ids@.contains(x)),
                None => selected_chat_ids@.len() == 0,
            },
    {
        if selected_chat_ids.len() == 0 {
            self.selected_chat_ids = None;
        } else {
            self.selected_chat_ids = Some(sorted_unique(&selected_chat_ids));
        }
    }

    /// Whether any filter is set.
    pub fn has_filters(&self) -> (r: bool)
        ensures
            r == (self.limit is Some || self.selected_chat_ids is Some
                || self.selected_handle_ids is Some),
    {
        self.limit.is_some() || self.selected_chat_ids.is_some()
            || self.selected_handle_ids.is_some()
    }
}


/// Does a participant's address match any comma-separated term of the
/// conversation filter?
pub open spec fn spec_matches_filter(filter: Seq<char>, name: Seq<char>) -> bool {
    exists|t: int|
        0 <= t < spec_split(filter, ',').len() && spec_contains(
            name,
            #[trigger] spec_split(filter, ',')[t],
        )
}

/// The row ids of the participants the filter selects, in table order.
pub open spec fn spec_matching_ids(filter: Seq<char>, ps: Seq<(i32, String)>) -> Seq<i32>
    decreases ps.len(),
{
    if ps.len() == 0 {
        Seq::empty()
    } else {
        (if spec_matches_filter(filter, ps[0].1@) {
            seq![ps[0].0]
        } else {
            Seq::empty()
        }) + spec_matching_ids(filter, ps.drop_first())
    }
}

proof fn lemma_matching_ids_push(filter: Seq<char>, ps: Seq<(i32, String)>, x: (i32, String))
    ensures
        spec_matching_ids(filter, ps.push(x)) == spec_matching_ids(filter, ps) + (
        if spec_matches_filter(filter, x.1@) {
            seq![x.0]
        } else {
            Seq::<i32>::empty()
        }),
    decreases ps.len(),
{
    let extra: Seq<i32> = if spec_matches_filter(filter, x.1@) {
        seq![x.0]
    } else {
        Seq::empty()
    };
    if ps.len() == 0 {
        assert(ps.push(x).drop_first() =~= ps);
        assert(ps.push(x)[0] == x);
        assert(spec_matching_ids(filter, ps) == Seq::<i32>::empty());
        assert(extra + Seq::<i32>::empty() =~= Seq::<i32>::empty() + extra);
    } else {
        let tail = ps.drop_first();
        assert(ps.push(x).drop_first() =~= tail.push(x));
        assert(ps.push(x)[0] == ps[0]);
        lemma_matching_ids_push(filter, tail, x);
        let head: Seq<i32> = if spec_matches_filter(filter, ps[0].1@) {
            seq![ps[0].0]
        } else {
            Seq::empty()
        };
        assert(spec_matching_ids(filter, ps.push(x)) == head + (spec_matching_ids(filter, tail)
            + extra));
        assert(head + (spec_matching_ids(filter, tail) + extra) =~= (head + spec_matching_ids(
            filter,
            tail,
        )) + extra);
    }
}

/// The handle row ids whose address contains one of the filter's
/// comma-separated terms, in table order.
pub fn matching_handle_ids(filter: &str, participants: &Vec<(i32, String)>) -> (r: Vec<i32>)
    ensures
        r@ == spec_matching_ids(filter@, participants@),
{
    let fchars = chars_of(filter);
    let terms = split_chars(fchars.as_slice(), ',');
    let mut term_strs: Vec<String> = Vec::new();
    let mut t: usize = 0;
    while t < terms.len()
        invariant
            t <= terms@.len(),
            terms.deep_view() == spec_split(filter@, ','),
            term_strs@.len() == t,
            forall|k: int| 0 <= k < t ==> (#[trigger] term_strs@[k])@ == terms.deep_view()[k],
        decreases terms@.len() - t,
    {
        term_strs.push(string_from_chars(terms[t].as_slice()));
        t = t + 1;
    }
    let mut out: Vec<i32> = Vec::new();
    proof {
        assert(participants@.take(0) =~= Seq::<(i32, String)>::empty());
        assert(out@ =~= spec_matching_ids(filter@, participants@.take(0)));
    }
    let mut pi: usize = 0;
    while pi < participants.len()
        invariant
            pi <= participants@.len(),
            terms.deep_view() == spec_split(filter@, ','),
            term_strs@.len() == terms.deep_view().len(),
            forall|k: int|
                0 <= k < term_strs@.len() ==> (#[trigger] term_strs@[k])@ == terms.deep_view()[k],
            out@ == spec_matching_ids(filter@, participants@.take(pi as int)),
        decreases participants@.len() - pi,
    {
        let ghost pre = out@;
        let name_chars = chars_of(participants[pi].1.as_str());
        let mut matched = false;
        let mut ti: usize = 0;
        while ti < term_strs.len() && !matched
            invariant
                ti <= term_strs@.len(),
                pi < participants@.len(),
                name_chars@ == participants@[pi as int].1@,
                term_strs@.len() == terms.deep_view().len(),
                terms.deep_view() == spec_split(filter@, ','),
                forall|k: int|
                    0 <= k < term_strs@.len() ==> (#[trigger] term_strs@[k])@
                        == terms.deep_view()[k],
                matched ==> spec_matches_filter(filter@, participants@[pi as int].1@),
                !matched ==> forall|k: int|
                    0 <= k < ti ==> !spec_contains(
                        participants@[pi as int].1@,
                        #[trigger] spec_split(filter@, ',')[k],
                    ),
            decreases term_strs@.len() - ti, (if matched {
                0int
            } else {
                1int
            }),
        {
            if contains_chars(name_chars.as_slice(), term_strs[ti].as_str()) {
                matched = true;
            }
            ti = ti + 1;
        }
        if matched {
            out.push(participants[pi].0);
        }
        proof {
            assert(!matched ==> !spec_matches_filter(filter@, participants@[pi as int].1@));
            assert(participants@.take(pi as int + 1) =~= participants@.take(pi as int).push(
                participants@[pi as int],
            ));
            lemma_matching_ids_push(
                filter@,
                participants@.take(pi as int),
                participants@[pi as int],
            );
            if matched {
                assert(out@ =~= pre + seq![participants@[pi as int].0]);
            } else {
                assert(out@ =~= pre + Seq::<i32>::empty());
            }
        }
        pi = pi + 1;
    }
    proof {
        assert(participants@.take(participants@.len() as int) =~= participants@);
    }
    out
}

/// Is an id among the selected ones?
pub fn id_contained(ids: &Vec<i32>, x: i32) -> (r: bool)
    ensures
        r == ids@.contains(x),
{
    let mut i: usize = 0;
    while i < ids.len()
        invariant
            i <= ids@.len(),
            forall|j: int| 0 <= j < i ==> ids@[j] != x,
        decreases ids@.len() - i,
    {
        if ids[i] == x {
            return true;
        }
        i = i + 1;
    }
    false
}

/// The chat ids of the join rows whose handle id is selected, in table
/// order.
pub open spec fn spec_matching_chats(pairs: Seq<(i32, i32)>, ids: Seq<i32>) -> Seq<i32>
    decreases pairs.len(),
{
    if pairs.len() == 0 {
        Seq::empty()
    } else {
        (if ids.contains(pairs[0].1) {
            seq![pairs[0].0]
        } else {
            Seq::empty()
        }) + spec_matching_chats(pairs.drop_first(), ids)
    }
}

proof fn lemma_matching_chats_push(pairs: Seq<(i32, i32)>, ids: Seq<i32>, x: (i32, i32))
    ensures
        spec_matching_chats(pairs.push(x), ids) == spec_matching_chats(pairs, ids) + (
        if ids.contains(x.1) {
            seq![x.0]
        } else {
            Seq::<i32>::empty()
        }),
    decreases pairs.len(),
{
    let extra: Seq<i32> = if ids.contains(x.1) {
        seq![x.0]
    } else {
        Seq::empty()
    };
    if pairs.len() == 0 {
        assert(pairs.push(x).drop_first() =~= pairs);
        assert(pairs.push(x)[0] == x);
        assert(spec_matching_chats(pairs, ids) == Seq::<i32>::empty());
        assert(extra + Seq::<i32>::empty() =~= Seq::<i32>::empty() + extra);
    } else {
        let tail = pairs.drop_first();
        assert(pairs.push(x).drop_first() =~= tail.push(x));
        assert(pairs.push(x)[0] == pairs[0]);
        lemma_matching_chats_push(tail, ids, x);
        let head: Seq<i32> = if ids.contains(pairs[0].1) {
            seq![pairs[0].0]
        } else {
            Seq::empty()
        };
        assert(spec_matching_chats(pairs.push(x), ids) == head + (spec_matching_chats(tail, ids)
            + extra));
        assert(head + (spec_matching_chats(tail, ids) + extra) =~= (head + spec_matching_chats(
            tail,
            ids,
        )) + extra);
    }
}

/// Select the chat ids joined to any selected handle.
pub fn matching_chat_ids(pairs: &Vec<(i32, i32)>, handle_ids: &Vec<i32>) -> (r: Vec<i32>)
    ensures
        r@ == spec_matching_chats(pairs@, handle_ids@),
{
    let mut out: Vec<i32> = Vec::new();
    proof {
        assert(pairs@.take(0) =~= Seq::<(i32, i32)>::empty());
        assert(out@ =~= spec_matching_chats(pairs@.take(0), handle_ids@));
    }
    let mut i: usize = 0;
    while i < pairs.len()
        invariant
            i <= pairs@.len(),
            out@ == spec_matching_chats(pairs@.take(i as int), handle_ids@),
        decreases pairs@.len() - i,
    {
        let ghost pre = out@;
        if id_contained(handle_ids, pairs[i].1) {
            out.push(pairs[i].0);
        }
        proof {
            assert(pairs@.take(i as int + 1) =~= pairs@.take(i as int).push(pairs@[i as int]));
            lemma_matching_chats_push(pairs@.take(i as int), handle_ids@, pairs@[i as int]);
            if handle_ids@.contains(pairs@[i as int].1) {
                assert(out@ =~= pre + seq![pairs@[i as int].0]);
            } else {
                assert(out@ =~= pre + Seq::<i32>::empty());
            }
        }
        i = i + 1;
    }
    proof {
        assert(pairs@.take(pairs@.len() as int) =~= pairs@);
    }
    out
}

} // verus!
