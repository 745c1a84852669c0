//! The reference registry: an ordered list of reference records, at most one
//! per identifier once every record has passed through [`AppState::replace_or_insert`].

use vstd::prelude::*;
use crate::error::VaultError;
use crate::reference::{ReferenceRecord, SecretReference};
use crate::text::same_text;

verus! {

/// The records held by a list of references, in order.
pub open spec fn records(refs: Seq<SecretReference>) -> Seq<ReferenceRecord> {
    refs.map_values(|r: SecretReference| r@)
}

/// Some record of `s` carries the identifier `id`.
pub open spec fn has_id(s: Seq<ReferenceRecord>, id: Seq<char>) -> bool {
    exists|i: int| 0 <= i < s.len() && (#[trigger] s[i]).id == id
}

/// `i` is the position of the first record of `s` that carries `id`.
pub open spec fn is_first_with_id(s: Seq<ReferenceRecord>, id: Seq<char>, i: int) -> bool {
    &&& 0 <= i < s.len()
    &&& s[i].id == id
    &&& forall|j: int| 0 <= j < i ==> (#[trigger] s[j]).id != id
}

/// The position of the first record that carries `id`; meaningful when there is one.
pub open spec fn first_with_id(s: Seq<ReferenceRecord>, id: Seq<char>) -> int {
    choose|i: int| is_first_with_id(s, id, i)
}

/// No two records of `s` carry the same identifier.
pub open spec fn unique_ids(s: Seq<ReferenceRecord>) -> bool {
    forall|i: int, j: int| 0 <= i < j < s.len() ==> (#[trigger] s[i]).id != (#[trigger] s[j]).id
}

/// `s` without the records that carry `id`; the others keep their order.
pub open spec fn without_id(s: Seq<ReferenceRecord>, id: Seq<char>) -> Seq<ReferenceRecord> {
    s.filter(|r: ReferenceRecord| r.id != id)
}

/// The records of `s` that carry `id`, in order.
pub open spec fn with_id(s: Seq<ReferenceRecord>, id: Seq<char>) -> Seq<ReferenceRecord> {
    s.filter(|r: ReferenceRecord| r.id == id)
}

/// `s` after `r` replaced every record with its identifier: `r` comes last.
pub open spec fn upserted(s: Seq<ReferenceRecord>, r: ReferenceRecord) -> Seq<ReferenceRecord> {
    without_id(s, r.id).push(r)
}

/// `r` with its time of last use set to `at`.
pub open spec fn used_at(r: ReferenceRecord, at: Seq<char>) -> ReferenceRecord {
    ReferenceRecord { last_used: Some(at), ..r }
}

/// `s` after the first record that carries `id` was marked as used at `at`;
/// `s` itself when no record carries `id`.
pub open spec fn touched(s: Seq<ReferenceRecord>, id: Seq<char>, at: Seq<char>) -> Seq<ReferenceRecord> {
    if has_id(s, id) {
        let i = first_with_id(s, id);
        s.update(i, used_at(s[i], at))
    } else {
        s
    }
}

/// The first record of `s` that carries `id`, if there is one.
pub open spec fn found(s: Seq<ReferenceRecord>, id: Seq<char>) -> Option<ReferenceRecord> {
    if has_id(s, id) {
        Some(s[first_with_id(s, id)])
    } else {
        None
    }
}

/// A record that carries `id` has a first position, and only one position is the first.
pub proof fn lemma_first_with_id(s: Seq<ReferenceRecord>, id: Seq<char>)
    ensures
        has_id(s, id) ==> is_first_with_id(s, id, first_with_id(s, id)),
        forall|i: int| is_first_with_id(s, id, i) ==> has_id(s, id) && i == first_with_id(s, id),
{
    if has_id(s, id) {
        let k = choose|k: int| 0 <= k < s.len() && (#[trigger] s[k]).id == id;
        lemma_least_position(s, id, k);
    }
    assert forall|i: int| is_first_with_id(s, id, i) implies has_id(s, id) && i == first_with_id(
        s,
        id,
    ) by {
        let f = first_with_id(s, id);
        assert(is_first_with_id(s, id, f));
        if i < f {
            assert(s[i].id != id);
        } else if f < i {
            assert(s[f].id != id);
        }
    }
}

proof fn lemma_least_position(s: Seq<ReferenceRecord>, id: Seq<char>, k: int)
    requires
        0 <= k < s.len(),
        s[k].id == id,
    ensures
        exists|i: int| is_first_with_id(s, id, i),
    decreases k,
{
    if forall|j: int| 0 <= j < k ==> (#[trigger] s[j]).id != id {
        assert(is_first_with_id(s, id, k));
    } else {
        let j = choose|j: int| 0 <= j < k && (#[trigger] s[j]).id == id;
        lemma_least_position(s, id, j);
    }
}

/// Removing an identifier leaves no record that carries it, keeps every other
/// record, and changes nothing when no record carried it.
pub proof fn lemma_without_id(s: Seq<ReferenceRecord>, id: Seq<char>)
    ensures
        !has_id(without_id(s, id), id),
        without_id(s, id).len() <= s.len(),
        forall|other: Seq<char>| other != id ==> with_id(without_id(s, id), other) == with_id(s, other),
        !has_id(s, id) ==> without_id(s, id) == s,
        without_id(without_id(s, id), id) == without_id(s, id),
        unique_ids(s) ==> unique_ids(without_id(s, id)),
    decreases s.len(),
{
    reveal(Seq::filter);
    if s.len() > 0 {
        let front = s.drop_last();
        let last = s.last();
        lemma_without_id(front, id);
        let out = without_id(s, id);
        let sub = without_id(front, id);
        assert(!has_id(out, id)) by {
            if has_id(out, id) {
                let i = choose|i: int| 0 <= i < out.len() && (#[trigger] out[i]).id == id;
                if i < sub.len() {
                    assert(sub[i].id == id);
                }
            }
        }
        assert forall|other: Seq<char>| other != id implies with_id(out, other) == with_id(
            s,
            other,
        ) by {
            assert(with_id(sub, other) == with_id(front, other));
            if last.id != id {
                assert(out.drop_last() == sub);
            }
        }
        if !has_id(s, id) {
            assert(!has_id(front, id)) by {
                if has_id(front, id) {
                    let i = choose|i: int| 0 <= i < front.len() && (#[trigger] front[i]).id == id;
                    assert(s[i].id == id);
                }
            }
            assert(s[s.len() - 1].id != id);
            assert(sub.push(last) == s);
        }
        assert(without_id(out, id) == out) by {
            if last.id != id {
                assert(out.drop_last() == sub);
            }
        }
        if unique_ids(s) {
            assert(unique_ids(front)) by {
                assert forall|i: int, j: int| 0 <= i < j < front.len() implies (#[trigger] front[i]).id
                    != (#[trigger] front[j]).id by {
                    assert(s[i].id != s[j].id);
                }
            }
            if last.id != id {
                lemma_kept_records_come_from(front, id);
                assert forall|i: int, j: int| 0 <= i < j < out.len() implies (#[trigger] out[i]).id
                    != (#[trigger] out[j]).id by {
                    if j == out.len() - 1 {
                        let k = choose|k: int| 0 <= k < front.len() && front[k] == sub[i];
                        assert(s[k].id != s[s.len() - 1].id);
                    } else {
                        assert(sub[i].id != sub[j].id);
                    }
                }
            }
        }
    }
}

/// Every record that survives the removal of `id` was in the list before.
pub proof fn lemma_kept_records_come_from(s: Seq<ReferenceRecord>, id: Seq<char>)
    ensures
        forall|i: int|
            0 <= i < without_id(s, id).len() ==> s.contains(#[trigger] without_id(s, id)[i]),
    decreases s.len(),
{
    reveal(Seq::filter);
    if s.len() > 0 {
        let front = s.drop_last();
        lemma_kept_records_come_from(front, id);
        let out = without_id(s, id);
        let sub = without_id(front, id);
        assert forall|i: int| 0 <= i < out.len() implies s.contains(#[trigger] out[i]) by {
            if i < sub.len() {
                assert(front.contains(sub[i]));
                let k = choose|k: int| 0 <= k < front.len() && front[k] == sub[i];
                assert(s[k] == out[i]);
            } else {
                assert(s[s.len() - 1] == out[i]);
            }
        }
    }
}


/// Replacing by identifier leaves exactly one record with that identifier, the
/// new one, in the last place; records with other identifiers are untouched.
pub proof fn lemma_upserted(s: Seq<ReferenceRecord>, r: ReferenceRecord)
    ensures
        with_id(upserted(s, r), r.id) == seq![r],
        upserted(s, r).last() == r,
        has_id(upserted(s, r), r.id),
        found(upserted(s, r), r.id) == Some(r),
        forall|other: Seq<char>| other != r.id ==> with_id(upserted(s, r), other) == with_id(s, other),
        unique_ids(s) ==> unique_ids(upserted(s, r)),
{
    let sub = without_id(s, r.id);
    let out = upserted(s, r);
    lemma_without_id(s, r.id);
    lemma_no_record_with_absent_id(sub, r.id);
    reveal(Seq::filter);
    assert(out.drop_last() == sub);
    assert(with_id(out, r.id) == seq![r]);
    assert(out[out.len() - 1].id == r.id);
    assert(is_first_with_id(out, r.id, out.len() - 1)) by {
        assert forall|j: int| 0 <= j < out.len() - 1 implies (#[trigger] out[j]).id != r.id by {
            assert(sub[j] == out[j]);
        }
    }
    lemma_first_with_id(out, r.id);
    assert forall|other: Seq<char>| other != r.id implies with_id(out, other) == with_id(
        s,
        other,
    ) by {
        assert(with_id(sub, other) == with_id(s, other));
    }
    if unique_ids(s) {
        assert forall|i: int, j: int| 0 <= i < j < out.len() implies (#[trigger] out[i]).id != (
        #[trigger] out[j]).id by {
            if j == out.len() - 1 {
                assert(sub[i] == out[i]);
            } else {
                assert(sub[i].id != sub[j].id);
            }
        }
    }
}

/// A list without a record for `id` has nothing to select by `id`.
pub proof fn lemma_no_record_with_absent_id(s: Seq<ReferenceRecord>, id: Seq<char>)
    requires
        !has_id(s, id),
    ensures
        with_id(s, id) == Seq::<ReferenceRecord>::empty(),
    decreases s.len(),
{
    reveal(Seq::filter);
    if s.len() > 0 {
        let front = s.drop_last();
        assert(!has_id(front, id)) by {
            if has_id(front, id) {
                let i = choose|i: int| 0 <= i < front.len() && (#[trigger] front[i]).id == id;
                assert(s[i].id == id);
            }
        }
        assert(s[s.len() - 1].id != id);
        lemma_no_record_with_absent_id(front, id);
    }
}

/// Last write wins: of two replacements under one identifier only the second shows.
pub proof fn lemma_last_write_wins(s: Seq<ReferenceRecord>, first: ReferenceRecord, second: ReferenceRecord)
    requires
        first.id == second.id,
    ensures
        upserted(upserted(s, first), second) == upserted(s, second),
        with_id(upserted(upserted(s, first), second), second.id) == seq![second],
{
    let id = second.id;
    let once = upserted(s, first);
    lemma_without_id(s, id);
    reveal(Seq::filter);
    assert(once.drop_last() == without_id(s, id));
    assert(without_id(once, id) == without_id(without_id(s, id), id));
    lemma_upserted(s, second);
}

/// Marking a record as used keeps the length, every identifier and every other field.
pub proof fn lemma_touched(s: Seq<ReferenceRecord>, id: Seq<char>, at: Seq<char>)
    ensures
        touched(s, id, at).len() == s.len(),
        forall|i: int| 0 <= i < s.len() ==> (#[trigger] touched(s, id, at)[i]).id == s[i].id,
        forall|i: int|
            0 <= i < s.len() && !is_first_with_id(s, id, i) ==> #[trigger] touched(s, id, at)[i] == s[i],
        forall|i: int|
            is_first_with_id(s, id, i) ==> #[trigger] touched(s, id, at)[i] == used_at(s[i], at),
        unique_ids(s) ==> unique_ids(touched(s, id, at)),
        !has_id(s, id) ==> touched(s, id, at) == s,
{
    lemma_first_with_id(s, id);
    let out = touched(s, id, at);
    if unique_ids(s) {
        assert forall|i: int, j: int| 0 <= i < j < out.len() implies (#[trigger] out[i]).id != (
        #[trigger] out[j]).id by {
            assert(s[i].id != s[j].id);
        }
    }
}

/// The registry of the running application: the reference records in the
/// order in which they were last written.
pub struct AppState {
    pub secret_references: Vec<SecretReference>,
}

impl View for AppState {
    type V = Seq<ReferenceRecord>;

    open spec fn view(&self) -> Seq<ReferenceRecord> {
        records(self.secret_references@)
    }
}

impl AppState {
    /// No identifier occurs twice. Every operation of the registry keeps this,
    /// and a registry that starts from a list without repeated identifiers has it.
    pub open spec fn well_formed(&self) -> bool {
        unique_ids(self@)
    }

    /// The registry at start-up: what was loaded. A failed load is handed on
    /// and gives no registry, so that a file that could not be read or
    /// understood is never overwritten.
    pub fn new(loaded: Result<Vec<SecretReference>, VaultError>) -> (state: Result<Self, VaultError>)
        ensures
            match loaded {
                Ok(refs) => state is Ok && state->Ok_0@ == records(refs@),
                Err(e) => state == Err::<Self, VaultError>(e),
            },
    {
        match loaded {
            Ok(refs) => Ok(AppState { secret_references: refs }),
            Err(e) => Err(e),
        }
    }

    /// Removes every record with the identifier of `reference`, then appends `reference`.
    pub fn replace_or_insert(&mut self, reference: SecretReference)
        ensures
            final(self)@ == upserted(old(self)@, reference@),
            with_id(final(self)@, reference@.id) == seq![reference@],
            old(self).well_formed() ==> final(self).well_formed(),
    {
        self.remove(reference.id.as_str());
        self.secret_references.push(reference);
        proof {
            lemma_upserted(old(self)@, reference@);
        }
    }

    /// Removes every record that carries `id`.
    pub fn remove(&mut self, id: &str)
        ensures
            final(self)@ == without_id(old(self)@, id@),
            !has_id(final(self)@, id@),
            old(self).well_formed() ==> final(self).well_formed(),
    {
        let mut all: Vec<SecretReference> = Vec::new();
        std::mem::swap(&mut self.secret_references, &mut all);
        let ghost before = records(all@);
        let ghost items = all@;
        let mut kept: Vec<SecretReference> = Vec::new();
        proof {
            reveal(Seq::filter);
        }
        for r in it: all
            invariant
                it.seq() == items,
                before == records(items),
                records(kept@) == without_id(before.take(it.index() as int), id@),
        {
            proof {
                reveal(Seq::filter);
                let i = it.index() as int;
                assert(before.take(i + 1).drop_last() == before.take(i));
            }
            if !same_text(r.id.as_str(), id) {
                kept.push(r);
            }
        }
        self.secret_references = kept;
        proof {
            assert(before.take(items.len() as int) == before);
            lemma_without_id(old(self)@, id@);
        }
    }

    /// A copy of the first record that carries `id`.
    pub fn find(&self, id: &str) -> (hit: Option<SecretReference>)
        ensures
            match hit {
                Some(r) => found(self@, id@) == Some(r@),
                None => found(self@, id@) is None,
            },
    {
        match self.position(id) {
            Some(i) => Some(self.secret_references[i].clone()),
            None => None,
        }
    }

    /// The position of the first record that carries `id`.
    pub fn position(&self, id: &str) -> (hit: Option<usize>)
        ensures
            match hit {
                Some(i) => is_first_with_id(self@, id@, i as int) && i == first_with_id(self@, id@),
                None => !has_id(self@, id@),
            },
    {
        let n = self.secret_references.len();
        let mut i: usize = 0;
        while i < n
            invariant
                n == self.secret_references@.len(),
                i <= n,
                forall|j: int| 0 <= j < i ==> (#[trigger] self@[j]).id != id@,
            decreases n - i,
        {
            if same_text(self.secret_references[i].id.as_str(), id) {
                proof {
                    lemma_first_with_id(self@, id@);
                }
                return Some(i);
            }
            i += 1;
        }
        None
    }

    /// A copy of every record, in the registry's order.
    pub fn snapshot(&self) -> (copy: Vec<SecretReference>)
        ensures
            records(copy@) == self@,
    {
        let n = self.secret_references.len();
        let mut copy: Vec<SecretReference> = Vec::new();
        let mut i: usize = 0;
        while i < n
            invariant
                n == self.secret_references@.len(),
                i <= n,
                records(copy@) == self@.take(i as int),
            decreases n - i,
        {
            let item = self.secret_references[i].clone();
            copy.push(item);
            assert(self@.take(i + 1).drop_last() == self@.take(i as int));
            i += 1;
        }
        copy
    }

    /// Sets the time of last use of the first record that carries `id`.
    /// Tells whether a record was changed.
    pub fn mark_used(&mut self, id: &str, at: String) -> (changed: bool)
        ensures
            final(self)@ == touched(old(self)@, id@, at@),
            changed == has_id(old(self)@, id@),
            old(self).well_formed() ==> final(self).well_formed(),
    {
        proof {
            lemma_touched(self@, id@, at@);
        }
        match self.position(id) {
            Some(i) => {
                self.secret_references[i].last_used = Some(at);
                true
            },
            None => false,
        }
    }
}

} // verus!
