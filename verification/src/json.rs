//! Schemaless structured documents.

use crate::text::{same_text, views};
use vstd::prelude::*;

verus! {

/// A structured document value.
///
/// Integers that fit `i64` are held as such; any other number is kept as its
/// decimal text. An object is a list of members; where a key occurs more than
/// once, the last occurrence is the one that is read.
#[derive(Debug)]
pub enum Json {
    Null,
    Bool(bool),
    Int(i64),
    Number(String),
    Str(String),
    Array(Vec<Json>),
    Object(Vec<(String, Json)>),
}

/// The mathematical value of a [`Json`] document.
pub enum JsonView {
    Null,
    Bool(bool),
    Int(i64),
    Number(Seq<char>),
    Str(Seq<char>),
    Array(Seq<JsonView>),
    Object(Seq<(Seq<char>, JsonView)>),
}

/// The mathematical value of a document.
pub open spec fn json_view(j: Json) -> JsonView
    decreases j,
{
    match j {
        Json::Null => JsonView::Null,
        Json::Bool(b) => JsonView::Bool(b),
        Json::Int(i) => JsonView::Int(i),
        Json::Number(t) => JsonView::Number(t@),
        Json::Str(s) => JsonView::Str(s@),
        Json::Array(items) => JsonView::Array(
            Seq::new(
                items.len() as nat,
                |i: int|
                    if 0 <= i < items.len() {
                        json_view(items[i])
                    } else {
                        JsonView::Null
                    },
            ),
        ),
        Json::Object(members) => JsonView::Object(
            Seq::new(
                members.len() as nat,
                |i: int|
                    if 0 <= i < members.len() {
                        (members[i].0@, json_view(members[i].1))
                    } else {
                        (Seq::empty(), JsonView::Null)
                    },
            ),
        ),
    }
}

impl View for Json {
    type V = JsonView;

    open spec fn view(&self) -> JsonView {
        json_view(*self)
    }
}

impl Json {
    /// A copy of this document.
    pub fn duplicate(&self) -> (r: Json)
        ensures
            r@ == self@,
        decreases self,
    {
        match self {
            Json::Null => Json::Null,
            Json::Bool(b) => Json::Bool(*b),
            Json::Int(i) => Json::Int(*i),
            Json::Number(t) => Json::Number(t.clone()),
            Json::Str(s) => Json::Str(s.clone()),
            Json::Array(items) => {
                let mut out: Vec<Json> = Vec::new();
                let mut i: usize = 0;
                while i < items.len()
                    invariant
                        i <= items.len(),
                        out.len() == i,
                        forall|k: int| 0 <= k < i ==> out[k]@ == items[k]@,
                        decreases_to!(self => items),
                    decreases items.len() - i,
                {
                    proof {
                        vstd::std_specs::vec::axiom_vec_index_decreases(*items, i as int);
                    }
                    out.push(items[i].duplicate());
                    i += 1;
                }
                let r = Json::Array(out);
                assert(r@ == self@) by {
                    assert(r@->Array_0 =~= self@->Array_0);
                }
                r
            },
            Json::Object(members) => {
                let mut out: Vec<(String, Json)> = Vec::new();
                let mut i: usize = 0;
                while i < members.len()
                    invariant
                        i <= members.len(),
                        out.len() == i,
                        forall|k: int|
                            0 <= k < i ==> out[k].0@ == members[k].0@ && out[k].1@
                                == members[k].1@,
                        decreases_to!(self => members),
                    decreases members.len() - i,
                {
                    proof {
                        vstd::std_specs::vec::axiom_vec_index_decreases(*members, i as int);
                    }
                    out.push((members[i].0.clone(), members[i].1.duplicate()));
                    i += 1;
                }
                let r = Json::Object(out);
                assert(r@ == self@) by {
                    assert(r@->Object_0 =~= self@->Object_0);
                }
                r
            },
        }
    }
}

/// The value of the last member with the given key, if there is one.
pub open spec fn last_member(members: Seq<(Seq<char>, JsonView)>, key: Seq<char>) -> Option<
    JsonView,
>
    decreases members.len(),
{
    if members.len() == 0 {
        None
    } else if members.last().0 == key {
        Some(members.last().1)
    } else {
        last_member(members.drop_last(), key)
    }
}

impl JsonView {
    /// The member of an object under the given key. Nothing else has
    /// members.
    pub open spec fn member(self, key: Seq<char>) -> Option<JsonView> {
        match self {
            JsonView::Object(members) => last_member(members, key),
            _ => None,
        }
    }

    /// The characters of a string.
    pub open spec fn text(self) -> Option<Seq<char>> {
        match self {
            JsonView::Str(s) => Some(s),
            _ => None,
        }
    }

    /// The value of a boolean.
    pub open spec fn boolean(self) -> Option<bool> {
        match self {
            JsonView::Bool(b) => Some(b),
            _ => None,
        }
    }

    /// The value of an integer that fits 64 bits with a sign.
    pub open spec fn integer(self) -> Option<i64> {
        match self {
            JsonView::Int(i) => Some(i),
            _ => None,
        }
    }

    /// The items of an array.
    pub open spec fn items(self) -> Option<Seq<JsonView>> {
        match self {
            JsonView::Array(items) => Some(items),
            _ => None,
        }
    }

    /// The members of an object.
    pub open spec fn members(self) -> Option<Seq<(Seq<char>, JsonView)>> {
        match self {
            JsonView::Object(members) => Some(members),
            _ => None,
        }
    }

    /// The characters of each string among the items of an array, in
    /// order; items that are no strings are passed over.
    pub open spec fn strings(self) -> Option<Seq<Seq<char>>> {
        match self {
            JsonView::Array(items) => Some(
                items.filter(|j: JsonView| j is Str).map_values(|j: JsonView| j->Str_0),
            ),
            _ => None,
        }
    }

    /// The characters of each item of an array of strings.
    pub open spec fn all_strings(self) -> Option<Seq<Seq<char>>> {
        match self {
            JsonView::Array(items) => if forall|i: int|
                0 <= i < items.len() ==> #[trigger] items[i] is Str {
                Some(items.map_values(|j: JsonView| j->Str_0))
            } else {
                None
            },
            _ => None,
        }
    }
}

/// The members of an object, as the list of their views.
pub open spec fn member_views(members: Seq<(String, Json)>) -> Seq<(Seq<char>, JsonView)> {
    members.map_values(|m: (String, Json)| (m.0@, m.1@))
}

impl Json {
    /// The view of an array is the list of the views of its items.
    pub proof fn lemma_array_view(items: Vec<Json>)
        ensures
            Json::Array(items)@ == JsonView::Array(views(items@)),
    {
        assert(Json::Array(items)@->Array_0 =~= views(items@));
    }

    /// The view of an object is the list of the views of its members.
    pub proof fn lemma_object_view(members: Vec<(String, Json)>)
        ensures
            Json::Object(members)@ == JsonView::Object(member_views(members@)),
    {
        assert(Json::Object(members)@->Object_0 =~= member_views(members@));
    }

    /// The member of an object under the given key.
    pub fn get(&self, key: &str) -> (r: Option<&Json>)
        ensures
            match r {
                Some(j) => self@.member(key@) == Some(j@),
                None => self@.member(key@) is None,
            },
    {
        match self {
            Json::Object(members) => {
                let ghost all = self@->Object_0;
                proof {
                    Json::lemma_object_view(*members);
                    assert(all.take(all.len() as int) =~= all);
                }
                let mut i: usize = members.len();
                while i > 0
                    invariant
                        i <= members.len(),
                        all == member_views(members@),
                        self@ == JsonView::Object(all),
                        last_member(all, key@) == last_member(all.take(i as int), key@),
                    decreases i,
                {
                    i -= 1;
                    proof {
                        assert(all.take(i + 1).drop_last() =~= all.take(i as int));
                    }
                    if same_text(members[i].0.as_str(), key) {
                        return Some(&members[i].1);
                    }
                }
                None
            },
            _ => None,
        }
    }

    /// The characters of a string.
    pub fn as_str(&self) -> (r: Option<&String>)
        ensures
            match r {
                Some(s) => self@.text() == Some(s@),
                None => self@.text() is None,
            },
    {
        match self {
            Json::Str(s) => Some(s),
            _ => None,
        }
    }

    /// The value of a boolean.
    pub fn as_bool(&self) -> (r: Option<bool>)
        ensures
            r == self@.boolean(),
    {
        match self {
            Json::Bool(b) => Some(*b),
            _ => None,
        }
    }

    /// The value of an integer that fits 64 bits with a sign.
    pub fn as_i64(&self) -> (r: Option<i64>)
        ensures
            r == self@.integer(),
    {
        match self {
            Json::Int(i) => Some(*i),
            _ => None,
        }
    }

    /// The items of an array.
    pub fn as_array(&self) -> (r: Option<&Vec<Json>>)
        ensures
            match r {
                Some(v) => self@.items() == Some(views(v@)),
                None => self@.items() is None,
            },
    {
        match self {
            Json::Array(items) => {
                proof {
                    Json::lemma_array_view(*items);
                }
                Some(items)
            },
            _ => None,
        }
    }

    /// The members of an object.
    pub fn as_object(&self) -> (r: Option<&Vec<(String, Json)>>)
        ensures
            match r {
                Some(v) => self@.members() == Some(member_views(v@)),
                None => self@.members() is None,
            },
    {
        match self {
            Json::Object(members) => {
                proof {
                    Json::lemma_object_view(*members);
                }
                Some(members)
            },
            _ => None,
        }
    }

    /// Whether this is an object.
    pub fn is_object(&self) -> (r: bool)
        ensures
            r == (self@ is Object),
    {
        match self {
            Json::Object(_) => true,
            _ => false,
        }
    }

    /// Whether this is `null`.
    pub fn is_null(&self) -> (r: bool)
        ensures
            r == (self@ is Null),
    {
        match self {
            Json::Null => true,
            _ => false,
        }
    }

    /// The empty object `{}`.
    pub fn empty_object() -> (r: Json)
        ensures
            r@ == JsonView::Object(Seq::empty()),
    {
        let r = Json::Object(Vec::new());
        assert(r@->Object_0 =~= Seq::empty());
        r
    }

    /// The empty array `[]`.
    pub fn empty_array() -> (r: Json)
        ensures
            r@ == JsonView::Array(Seq::empty()),
    {
        let r = Json::Array(Vec::new());
        assert(r@->Array_0 =~= Seq::empty());
        r
    }

    /// The strings among the items of an array, in order; items that are
    /// no strings are passed over.
    pub fn strings(&self) -> (r: Option<Vec<String>>)
        ensures
            match r {
                Some(v) => self@.strings() == Some(views(v@)),
                None => self@.strings() is None,
            },
    {
        match self {
            Json::Array(items) => {
                let ghost all = views(items@);
                let ghost is_str = |j: JsonView| j is Str;
                let ghost chars = |j: JsonView| j->Str_0;
                proof {
                    Json::lemma_array_view(*items);
                }
                let mut out: Vec<String> = Vec::new();
                let mut i: usize = 0;
                while i < items.len()
                    invariant
                        i <= items.len(),
                        all == views(items@),
                        self@ == JsonView::Array(all),
                        is_str == |j: JsonView| j is Str,
                        chars == |j: JsonView| j->Str_0,
                        views(out@) == all.take(i as int).filter(is_str).map_values(chars),
                    decreases items.len() - i,
                {
                    let ghost before = all.take(i as int);
                    proof {
                        assert(all.take(i + 1) =~= before.push(all[i as int]));
                        lemma_filter_push(before, all[i as int], is_str);
                    }
                    match &items[i] {
                        Json::Str(s) => {
                            let ghost kept = views(out@);
                            out.push(s.clone());
                            assert(before.filter(is_str).push(all[i as int]).map_values(chars)
                                =~= kept.push(s@));
                        },
                        _ => {
                            assert(!(all[i as int] is Str));
                        },
                    }
                    i += 1;
                }
                proof {
                    assert(all.take(items.len() as int) =~= all);
                }
                Some(out)
            },
            _ => None,
        }
    }

    /// The items of an array of strings. An array that holds anything else
    /// has no such list.
    pub fn all_strings(&self) -> (r: Option<Vec<String>>)
        ensures
            match r {
                Some(v) => self@.all_strings() == Some(views(v@)),
                None => self@.all_strings() is None,
            },
    {
        match self {
            Json::Array(items) => {
                let ghost all = views(items@);
                proof {
                    Json::lemma_array_view(*items);
                }
                let mut out: Vec<String> = Vec::new();
                let mut i: usize = 0;
                while i < items.len()
                    invariant
                        i <= items.len(),
                        all == views(items@),
                        self@ == JsonView::Array(all),
                        out.len() == i,
                        forall|k: int| 0 <= k < i ==> #[trigger] all[k] is Str,
                        forall|k: int| 0 <= k < i ==> out[k]@ == (#[trigger] all[k])->Str_0,
                    decreases items.len() - i,
                {
                    match &items[i] {
                        Json::Str(s) => {
                            out.push(s.clone());
                        },
                        _ => {
                            assert(!(all[i as int] is Str));
                            return None;
                        },
                    }
                    i += 1;
                }
                Some(out)
            },
            _ => None,
        }
    }
}

/// Filtering a sequence with one more item keeps that item exactly when
/// it passes.
pub proof fn lemma_filter_push<T>(s: Seq<T>, x: T, pred: spec_fn(T) -> bool)
    ensures
        s.push(x).filter(pred) == if pred(x) {
            s.filter(pred).push(x)
        } else {
            s.filter(pred)
        },
{
    reveal(Seq::filter);
    assert(s.push(x).drop_last() =~= s);
}

/// The place of the last member with the given key, if there is one.
pub open spec fn last_place(members: Seq<(Seq<char>, JsonView)>, key: Seq<char>) -> Option<int>
    decreases members.len(),
{
    if members.len() == 0 {
        None
    } else if members.last().0 == key {
        Some(members.len() - 1)
    } else {
        last_place(members.drop_last(), key)
    }
}

/// The members with `value` under `key`: in the place of the member that
/// is read under that key, or at the end where there is none.
pub open spec fn put(members: Seq<(Seq<char>, JsonView)>, key: Seq<char>, value: JsonView) -> Seq<
    (Seq<char>, JsonView),
> {
    match last_place(members, key) {
        Some(i) => members.update(i, (key, value)),
        None => members.push((key, value)),
    }
}

/// The members with each member of `extra` put in, one after the other.
pub open spec fn put_all(
    members: Seq<(Seq<char>, JsonView)>,
    extra: Seq<(Seq<char>, JsonView)>,
) -> Seq<(Seq<char>, JsonView)>
    decreases extra.len(),
{
    if extra.len() == 0 {
        members
    } else {
        put(put_all(members, extra.drop_last()), extra.last().0, extra.last().1)
    }
}

/// The shallow merge of `update` over `current`: an object that holds the
/// members of `current`, with each member of `update` put in. A value that
/// is no object counts as an object without members.
pub open spec fn merged(current: JsonView, update: JsonView) -> JsonView {
    JsonView::Object(
        put_all(
            match current {
                JsonView::Object(m) => m,
                _ => Seq::empty(),
            },
            match update {
                JsonView::Object(m) => m,
                _ => Seq::empty(),
            },
        ),
    )
}

/// The last place of a key is a place that holds the key, and no later
/// place does; where there is none, no place holds the key.
pub proof fn lemma_last_place(members: Seq<(Seq<char>, JsonView)>, key: Seq<char>)
    ensures
        match last_place(members, key) {
            Some(i) => 0 <= i < members.len() && members[i].0 == key && last_member(members, key)
                == Some(members[i].1) && forall|k: int|
                i < k < members.len() ==> (#[trigger] members[k]).0 != key,
            None => last_member(members, key) is None && forall|k: int|
                0 <= k < members.len() ==> (#[trigger] members[k]).0 != key,
        },
    decreases members.len(),
{
    if members.len() > 0 && members.last().0 != key {
        let front = members.drop_last();
        lemma_last_place(front, key);
        match last_place(front, key) {
            Some(i) => {
                assert forall|k: int| i < k < members.len() implies (#[trigger] members[k]).0
                    != key by {
                    if k < front.len() {
                        assert(front[k].0 != key);
                    }
                }
            },
            None => {
                assert forall|k: int| 0 <= k < members.len() implies (#[trigger] members[k]).0
                    != key by {
                    if k < front.len() {
                        assert(front[k].0 != key);
                    }
                }
            },
        }
    }
}

/// What is read under a key depends only on the last place that holds it.
pub proof fn lemma_member_at(members: Seq<(Seq<char>, JsonView)>, key: Seq<char>, i: int)
    requires
        0 <= i < members.len(),
        members[i].0 == key,
        forall|k: int| i < k < members.len() ==> (#[trigger] members[k]).0 != key,
    ensures
        last_member(members, key) == Some(members[i].1),
    decreases members.len(),
{
    if i < members.len() - 1 {
        let front = members.drop_last();
        assert forall|k: int| i < k < front.len() implies (#[trigger] front[k]).0 != key by {
            assert(members[k].0 != key);
        }
        lemma_member_at(front, key, i);
    }
}

/// Nothing is read under a key that no place holds.
pub proof fn lemma_member_absent(members: Seq<(Seq<char>, JsonView)>, key: Seq<char>)
    requires
        forall|k: int| 0 <= k < members.len() ==> (#[trigger] members[k]).0 != key,
    ensures
        last_member(members, key) is None,
    decreases members.len(),
{
    if members.len() > 0 {
        let front = members.drop_last();
        assert forall|k: int| 0 <= k < front.len() implies (#[trigger] front[k]).0 != key by {
            assert(members[k].0 != key);
        }
        lemma_member_absent(front, key);
    }
}

/// After a put, the value put is read under its key, and what is read
/// under every other key is as before.
pub proof fn lemma_put(
    members: Seq<(Seq<char>, JsonView)>,
    key: Seq<char>,
    value: JsonView,
    other: Seq<char>,
)
    ensures
        last_member(put(members, key, value), other) == if other == key {
            Some(value)
        } else {
            last_member(members, other)
        },
{
    lemma_last_place(members, key);
    let next = put(members, key, value);
    match last_place(members, key) {
        Some(i) => {
            if other == key {
                assert forall|k: int| i < k < next.len() implies (#[trigger] next[k]).0 != key by {
                    assert(members[k].0 != key);
                }
                lemma_member_at(next, key, i);
            } else {
                lemma_last_place(members, other);
                match last_place(members, other) {
                    Some(j) => {
                        assert forall|k: int| j < k < next.len() implies (#[trigger] next[k]).0
                            != other by {
                            assert(members[k].0 != other);
                        }
                        lemma_member_at(next, other, j);
                    },
                    None => {
                        assert forall|k: int| 0 <= k < next.len() implies (#[trigger] next[k]).0
                            != other by {
                            assert(members[k].0 != other);
                        }
                        lemma_member_absent(next, other);
                    },
                }
            }
        },
        None => {
            assert(next.drop_last() =~= members);
        },
    }
}

/// Shallow merge: under each key the merged object holds what the update
/// holds there, and where the update holds nothing, what the current
/// object holds. Nothing is lost.
pub proof fn lemma_put_all(
    members: Seq<(Seq<char>, JsonView)>,
    extra: Seq<(Seq<char>, JsonView)>,
    key: Seq<char>,
)
    ensures
        last_member(put_all(members, extra), key) == if last_member(extra, key) is Some {
            last_member(extra, key)
        } else {
            last_member(members, key)
        },
    decreases extra.len(),
{
    if extra.len() > 0 {
        lemma_put_all(members, extra.drop_last(), key);
        lemma_put(put_all(members, extra.drop_last()), extra.last().0, extra.last().1, key);
    }
}

impl Json {
    /// The place of the last member with the given key.
    fn find_last(members: &Vec<(String, Json)>, key: &str) -> (r: Option<usize>)
        ensures
            match r {
                Some(i) => i < members.len() && last_place(member_views(members@), key@) == Some(
                    i as int,
                ),
                None => last_place(member_views(members@), key@) is None,
            },
    {
        let ghost all = member_views(members@);
        proof {
            assert(all.take(all.len() as int) =~= all);
        }
        let mut i: usize = members.len();
        while i > 0
            invariant
                i <= members.len(),
                all == member_views(members@),
                last_place(all, key@) == last_place(all.take(i as int), key@),
            decreases i,
        {
            i -= 1;
            proof {
                assert(all.take(i + 1).drop_last() =~= all.take(i as int));
            }
            if same_text(members[i].0.as_str(), key) {
                return Some(i);
            }
        }
        None
    }

    /// A copy of the members of an object.
    fn copy_members(members: &Vec<(String, Json)>) -> (r: Vec<(String, Json)>)
        ensures
            member_views(r@) == member_views(members@),
    {
        let mut out: Vec<(String, Json)> = Vec::new();
        let mut i: usize = 0;
        while i < members.len()
            invariant
                i <= members.len(),
                out.len() == i,
                forall|k: int|
                    0 <= k < i ==> out[k].0@ == members[k].0@ && out[k].1@ == members[k].1@,
            decreases members.len() - i,
        {
            out.push((members[i].0.clone(), members[i].1.duplicate()));
            i += 1;
        }
        out
    }

    /// The shallow merge of `update` over `current`.
    ///
    /// The result is an object. It holds the members of `current` with
    /// each member of `update` put in: over the member that is read under
    /// its key, or at the end. A value that is no object counts as an
    /// object without members.
    pub fn merge(current: &Json, update: &Json) -> (r: Json)
        ensures
            r@ == merged(current@, update@),
    {
        let mut members: Vec<(String, Json)> = match current.as_object() {
            Some(m) => Json::copy_members(m),
            None => Vec::new(),
        };
        let ghost base = member_views(members@);
        assert(base =~= match current@ {
            JsonView::Object(m) => m,
            _ => Seq::empty(),
        });
        match update.as_object() {
            Some(extra) => {
                let ghost ex = member_views(extra@);
                let mut i: usize = 0;
                while i < extra.len()
                    invariant
                        i <= extra.len(),
                        ex == member_views(extra@),
                        member_views(members@) == put_all(base, ex.take(i as int)),
                    decreases extra.len() - i,
                {
                    let ghost now = member_views(members@);
                    proof {
                        assert(ex.take(i + 1).drop_last() =~= ex.take(i as int));
                    }
                    let value = extra[i].1.duplicate();
                    match Json::find_last(&members, extra[i].0.as_str()) {
                        Some(place) => {
                            members.set(place, (extra[i].0.clone(), value));
                            assert(member_views(members@) =~= now.update(
                                place as int,
                                ex[i as int],
                            ));
                        },
                        None => {
                            members.push((extra[i].0.clone(), value));
                        },
                    }
                    i += 1;
                }
                proof {
                    assert(ex.take(extra.len() as int) =~= ex);
                }
            },
            None => {},
        }
        proof {
            Json::lemma_object_view(members);
        }
        Json::Object(members)
    }
}

impl Json {
    /// Whether two documents have the same value: the same kind, and the
    /// same items or members in the same order.
    pub fn same_as(&self, other: &Json) -> (r: bool)
        ensures
            r == (self@ == other@),
        decreases self,
    {
        match (self, other) {
            (Json::Null, Json::Null) => true,
            (Json::Bool(a), Json::Bool(b)) => *a == *b,
            (Json::Int(a), Json::Int(b)) => *a == *b,
            (Json::Number(a), Json::Number(b)) => same_text(a.as_str(), b.as_str()),
            (Json::Str(a), Json::Str(b)) => same_text(a.as_str(), b.as_str()),
            (Json::Array(a), Json::Array(b)) => {
                proof {
                    Json::lemma_array_view(*a);
                    Json::lemma_array_view(*b);
                }
                if a.len() != b.len() {
                    assert(views(a@).len() != views(b@).len());
                    return false;
                }
                let mut i: usize = 0;
                while i < a.len()
                    invariant
                        i <= a.len(),
                        a.len() == b.len(),
                        forall|k: int| 0 <= k < i ==> a[k]@ == b[k]@,
                        decreases_to!(self => a),
                        self@ == JsonView::Array(views(a@)),
                        other@ == JsonView::Array(views(b@)),
                    decreases a.len() - i,
                {
                    proof {
                        vstd::std_specs::vec::axiom_vec_index_decreases(*a, i as int);
                    }
                    if !a[i].same_as(&b[i]) {
                        assert(views(a@)[i as int] != views(b@)[i as int]);
                        return false;
                    }
                    i += 1;
                }
                assert(views(a@) =~= views(b@));
                true
            },
            (Json::Object(a), Json::Object(b)) => {
                proof {
                    Json::lemma_object_view(*a);
                    Json::lemma_object_view(*b);
                }
                if a.len() != b.len() {
                    assert(member_views(a@).len() != member_views(b@).len());
                    return false;
                }
                let mut i: usize = 0;
                while i < a.len()
                    invariant
                        i <= a.len(),
                        a.len() == b.len(),
                        forall|k: int| 0 <= k < i ==> a[k].0@ == b[k].0@ && a[k].1@ == b[k].1@,
                        decreases_to!(self => a),
                        self@ == JsonView::Object(member_views(a@)),
                        other@ == JsonView::Object(member_views(b@)),
                    decreases a.len() - i,
                {
                    proof {
                        vstd::std_specs::vec::axiom_vec_index_decreases(*a, i as int);
                    }
                    if !same_text(a[i].0.as_str(), b[i].0.as_str()) || !a[i].1.same_as(&b[i].1) {
                        assert(member_views(a@)[i as int] != member_views(b@)[i as int]);
                        return false;
                    }
                    i += 1;
                }
                assert(member_views(a@) =~= member_views(b@));
                true
            },
            _ => false,
        }
    }
}

/// A member of an object: a key with its value.
pub fn member(key: &str, value: Json) -> (r: (String, Json))
    ensures
        r.0@ == key@,
        r.1@ == value@,
{
    (key.to_owned(), value)
}

impl Clone for Json {
    fn clone(&self) -> (r: Json)
        ensures
            r@ == self@,
    {
        self.duplicate()
    }
}

} // verus!
