//! A minimal, read-only view of a Nostr event: exactly the fields Almanac reads.

use vstd::prelude::*;
use crate::text::{starts_with, str_eq};

verus! {

/// A single Nostr tag value list, e.g. `["d", "daily-brief"]`.
pub type Tag = Vec<String>;

/// A read-only view of a Nostr event.
#[derive(Debug, Clone, PartialEq, Eq)]
pub struct SourceEvent {
    /// Event kind (e.g. 30620 for workflow defs, 48050 for schedules).
    pub kind: u32,
    /// Arbitrary content string (markdown body / agent output).
    pub content: String,
    /// Tag list; tags are read by name (their first element).
    pub tags: Vec<Tag>,
    /// `created_at` in unix seconds.
    pub created_at: i64,
}

/// The tag `t` is named `name`.
pub open spec fn tag_named(t: Seq<Seq<char>>, name: Seq<char>) -> bool {
    t.len() > 0 && t[0] == name
}

/// Index of the first tag named `name`.
pub open spec fn first_named(tags: Seq<Seq<Seq<char>>>, name: Seq<char>) -> Option<int> {
    if exists|i: int| 0 <= i < tags.len() && tag_named(tags[i], name) {
        Some(choose|i: int| 0 <= i < tags.len() && tag_named(tags[i], name)
            && forall|j: int| 0 <= j < i ==> !tag_named(#[trigger] tags[j], name))
    } else {
        None
    }
}

/// The value of the first tag named `name`: its second element, or `None`
/// when there is no such tag or it has no second element.
#[verifier::opaque]
pub open spec fn first_tag_value_spec(tags: Seq<Seq<Seq<char>>>, name: Seq<char>) -> Option<Seq<char>> {
    match first_named(tags, name) {
        Some(i) => if tags[i].len() > 1 { Some(tags[i][1]) } else { None },
        None => None,
    }
}

/// What one tag contributes to a typed lookup of `name`: the value of
/// `["name", value, ..]` (form A) or the rest of `["name:value", ..]` (form B).
pub open spec fn typed_hit(t: Seq<Seq<char>>, name: Seq<char>) -> Option<Seq<char>> {
    if t.len() == 0 {
        None
    } else if t[0] == name && t.len() > 1 {
        Some(t[1])
    } else if starts_with(t[0], name.push(':')) {
        Some(t[0].skip(name.len() as int + 1))
    } else {
        None
    }
}

/// The first typed value of `name` over the tags, in order.
#[verifier::opaque]
pub open spec fn first_typed_value_spec(tags: Seq<Seq<Seq<char>>>, name: Seq<char>) -> Option<Seq<char>> {
    if exists|i: int| 0 <= i < tags.len() && typed_hit(tags[i], name) is Some {
        let i = choose|i: int| 0 <= i < tags.len() && typed_hit(tags[i], name) is Some
            && forall|j: int| 0 <= j < i ==> typed_hit(#[trigger] tags[j], name) is None;
        typed_hit(tags[i], name)
    } else {
        None
    }
}

/// The values (second elements) of all tags named `name`, in order; tags
/// without a second element contribute nothing.
pub open spec fn all_tag_values_spec(tags: Seq<Seq<Seq<char>>>, name: Seq<char>) -> Seq<Seq<char>>
    decreases tags.len(),
{
    if tags.len() == 0 {
        seq![]
    } else {
        let prev = all_tag_values_spec(tags.drop_last(), name);
        let t = tags.last();
        if tag_named(t, name) && t.len() > 1 {
            prev.push(t[1])
        } else {
            prev
        }
    }
}

fn is_named(t: &Tag, name: &str) -> (r: bool)
    ensures
        r == tag_named(t.deep_view(), name@),
{
    t.len() > 0 && str_eq(t[0].as_str(), name)
}

impl SourceEvent {
    /// The tags as plain sequences of character sequences.
    pub open spec fn tag_seqs(&self) -> Seq<Seq<Seq<char>>> {
        self.tags.deep_view()
    }

    /// The second element of the first tag named `name`.
    /// `event.first_tag_value("d")` is the id of a `d`-tagged event.
    pub fn first_tag_value(&self, name: &str) -> (r: Option<&str>)
        ensures
            r matches Some(v) ==> first_tag_value_spec(self.tag_seqs(), name@) == Some(v@),
            r is None ==> first_tag_value_spec(self.tag_seqs(), name@) is None,
    {
        reveal(first_tag_value_spec);
        let ghost tags = self.tag_seqs();
        let mut i: usize = 0;
        while i < self.tags.len()
            invariant
                tags == self.tag_seqs(),
                i <= tags.len(),
                forall|j: int| 0 <= j < i ==> !tag_named(#[trigger] tags[j], name@),
            decreases tags.len() - i,
        {
            assert(tags[i as int] == self.tags@[i as int].deep_view());
            if is_named(&self.tags[i], name) {
                proof {
                    reveal(first_tag_value_spec);
                    let k = choose|k: int| 0 <= k < tags.len() && tag_named(tags[k], name@)
                        && forall|j: int| 0 <= j < k ==> !tag_named(#[trigger] tags[j], name@);
                    if k < i {
                        assert(!tag_named(tags[k], name@));
                    } else if k > i {
                        assert(!tag_named(tags[i as int], name@));
                    }
                    assert(k == i);
                }
                if self.tags[i].len() > 1 {
                    assert(tags[i as int][1] == self.tags@[i as int]@[1]@);
                    return Some(self.tags[i][1].as_str());
                } else {
                    return None;
                }
            }
            i = i + 1;
        }
        None
    }

    /// The first typed value of `name`: from a tag `["name", value]`, or the
    /// part after the colon of a tag `["name:value"]`, whichever comes first.
    pub fn first_typed_value(&self, name: &str) -> (r: Option<&str>)
        ensures
            r matches Some(v) ==> first_typed_value_spec(self.tag_seqs(), name@) == Some(v@),
            r is None ==> first_typed_value_spec(self.tag_seqs(), name@) is None,
    {
        reveal(first_typed_value_spec);
        let ghost tags = self.tag_seqs();
        let mut prefix = name.to_owned();
        crate::text::push_str(&mut prefix, ":");
        proof { reveal_strlit(":"); }
        let pv = crate::text::chars_of(prefix.as_str());
        assert(pv@ == name@.push(':'));
        let mut i: usize = 0;
        while i < self.tags.len()
            invariant
                tags == self.tag_seqs(),
                pv@ == name@.push(':'),
                i <= tags.len(),
                forall|j: int| 0 <= j < i ==> typed_hit(#[trigger] tags[j], name@) is None,
            decreases tags.len() - i,
        {
            let t = &self.tags[i];
            assert(tags[i as int] == t.deep_view());
            if t.len() > 0 {
                let first = &t[0];
                assert(tags[i as int][0] == first@);
                let mut hit: Option<&str> = None;
                if str_eq(first.as_str(), name) && t.len() > 1 {
                    assert(tags[i as int][1] == t@[1]@);
                    hit = Some(t[1].as_str());
                } else {
                    let fv = crate::text::chars_of(first.as_str());
                    if crate::text::starts_with_chars(fv.as_slice(), pv.as_slice()) {
                        let n = first.as_str().unicode_len();
                        let rest = first.as_str().substring_char(pv.len(), n);
                        assert(rest@ =~= first@.skip(name@.len() as int + 1));
                        hit = Some(rest);
                    }
                }
                if let Some(v) = hit {
                    proof {
                        reveal(first_typed_value_spec);
                        let k = choose|k: int| 0 <= k < tags.len() && typed_hit(tags[k], name@) is Some
                            && forall|j: int| 0 <= j < k ==> typed_hit(#[trigger] tags[j], name@) is None;
                        if k < i {
                            assert(typed_hit(tags[k], name@) is None);
                        } else if k > i {
                            assert(typed_hit(tags[i as int], name@) is None);
                        }
                    }
                    return Some(v);
                }
            }
            i = i + 1;
        }
        None
    }

    /// The second elements of all tags named `name`, in order.
    pub fn all_tag_values(&self, name: &str) -> (r: Vec<&str>)
        ensures
            r@.len() == all_tag_values_spec(self.tag_seqs(), name@).len(),
            forall|k: int| 0 <= k < r@.len() ==> #[trigger] r@[k]@ == all_tag_values_spec(self.tag_seqs(), name@)[k],
    {
        let ghost tags = self.tag_seqs();
        let mut out: Vec<&str> = Vec::new();
        let mut i: usize = 0;
        while i < self.tags.len()
            invariant
                tags == self.tag_seqs(),
                i <= tags.len(),
                out@.len() == all_tag_values_spec(tags.take(i as int), name@).len(),
                forall|k: int| 0 <= k < out@.len() ==> #[trigger] out@[k]@ == all_tag_values_spec(tags.take(i as int), name@)[k],
            decreases tags.len() - i,
        {
            assert(tags.take(i + 1).drop_last() == tags.take(i as int));
            assert(tags.take(i + 1).last() == tags[i as int]);
            assert(tags[i as int] == self.tags@[i as int].deep_view());
            if is_named(&self.tags[i], name) && self.tags[i].len() > 1 {
                assert(tags[i as int][1] == self.tags@[i as int]@[1]@);
                out.push(self.tags[i][1].as_str());
            }
            i = i + 1;
        }
        assert(tags.take(tags.len() as int) == tags);
        out
    }
}

} // verus!
