use vstd::prelude::*;

use crate::assoc::find_key;
use crate::assoc::first_key_idx;
use crate::assoc::keys_of;
use crate::assoc::keys_unique;
use crate::assoc::str_keys;
use crate::error::ErrM;
use crate::error::Error;
use crate::value::pairs_v;
use crate::value::tv_clone;
use crate::value::tv_eq;
use crate::value::tvs;
use crate::value::TagValue;
use crate::value::Tv;

verus! {

/// Model of one combined entry: either a group of tags, each with the
/// distinct values seen for it across all records, or the values seen
/// directly under the top-level key.
pub enum CEntryM {
    Group(Seq<(Seq<char>, Seq<Tv>)>),
    Direct(Seq<Tv>),
}

/// Model of a combined record: for every key, its entry, ordered by
/// first appearance.
pub type CombinedM = Seq<(Seq<char>, CEntryM)>;

/// Append `v` to `vals` unless an equal value is already present.
pub open spec fn add_value(vals: Seq<Tv>, v: Tv) -> Seq<Tv> {
    if vals.contains(v) {
        vals
    } else {
        vals.push(v)
    }
}

/// Fold one tag/value pair into a group: start a new run for a new tag,
/// otherwise add the value to the tag's run.
pub open spec fn group_add(
    g: Seq<(Seq<char>, Seq<Tv>)>,
    tag: Seq<char>,
    v: Tv,
) -> Seq<(Seq<char>, Seq<Tv>)> {
    let i = first_key_idx(keys_of(g), tag);
    if i < 0 {
        g.push((tag, seq![v]))
    } else {
        g.update(i, (g[i].0, add_value(g[i].1, v)))
    }
}

/// Fold the pairs of a nested mapping into a group, in order.
pub open spec fn group_merge(
    g: Seq<(Seq<char>, Seq<Tv>)>,
    entries: Seq<(Seq<char>, Tv)>,
) -> Seq<(Seq<char>, Seq<Tv>)>
    decreases entries.len(),
{
    if entries.len() == 0 {
        g
    } else {
        group_merge(group_add(g, entries[0].0, entries[0].1), entries.drop_first())
    }
}

/// Fold one key/value pair of one record into the combined model. A new
/// key opens a group (for a nested mapping) or a direct run (for any
/// other value); a known key must agree on that shape, or the merge
/// fails for this key.
pub open spec fn combined_add(acc: CombinedM, key: Seq<char>, v: Tv) -> Result<CombinedM, ErrM> {
    let i = first_key_idx(keys_of(acc), key);
    if i < 0 {
        match v {
            Tv::Obj(nested) => Ok(
                acc.push((key, CEntryM::Group(group_merge(Seq::empty(), nested)))),
            ),
            _ => Ok(acc.push((key, CEntryM::Direct(seq![v])))),
        }
    } else {
        match acc[i].1 {
            CEntryM::Group(g) => match v {
                Tv::Obj(nested) => Ok(acc.update(i, (acc[i].0, CEntryM::Group(group_merge(g, nested))))),
                _ => Err(ErrM::TypeMismatch(key)),
            },
            CEntryM::Direct(vals) => match v {
                Tv::Obj(nested) => Err(ErrM::TypeMismatch(key)),
                _ => Ok(acc.update(i, (acc[i].0, CEntryM::Direct(add_value(vals, v))))),
            },
        }
    }
}

/// Fold a whole record into the combined model, stopping at the first
/// failing key.
pub open spec fn record_merge(acc: CombinedM, entries: Seq<(Seq<char>, Tv)>) -> Result<
    CombinedM,
    ErrM,
>
    decreases entries.len(),
{
    if entries.len() == 0 {
        Ok(acc)
    } else {
        match combined_add(acc, entries[0].0, entries[0].1) {
            Ok(a) => record_merge(a, entries.drop_first()),
            Err(e) => Err(e),
        }
    }
}

/// Fold a sequence of records into the combined model, in order. An
/// element that is not a mapping stops the merge at once.
pub open spec fn combine_from(acc: CombinedM, records: Seq<Tv>) -> Result<CombinedM, ErrM>
    decreases records.len(),
{
    if records.len() == 0 {
        Ok(acc)
    } else {
        match records[0] {
            Tv::Obj(entries) => match record_merge(acc, entries) {
                Ok(a) => combine_from(a, records.drop_first()),
                Err(e) => Err(e),
            },
            _ => Err(ErrM::InvalidInput),
        }
    }
}

/// What combining a sequence of per-file records yields, starting from
/// nothing.
pub open spec fn combine_spec(records: Seq<Tv>) -> Result<CombinedM, ErrM> {
    combine_from(Seq::empty(), records)
}

/// One combined entry in executable form.
#[derive(Debug)]
pub enum CombinedEntry {
    Group(Vec<(String, Vec<TagValue>)>),
    Direct(Vec<TagValue>),
}

/// The merged result over all input records.
#[derive(Debug)]
pub struct CombinedRecord {
    pub entries: Vec<(String, CombinedEntry)>,
}

/// Model of a group held in executable form.
pub open spec fn gv(g: Seq<(String, Vec<TagValue>)>) -> Seq<(Seq<char>, Seq<Tv>)> {
    Seq::new(g.len(), |i: int| (g[i].0@, tvs(g[i].1@)))
}

impl View for CombinedEntry {
    type V = CEntryM;

    open spec fn view(&self) -> CEntryM {
        match self {
            CombinedEntry::Group(g) => CEntryM::Group(gv(g@)),
            CombinedEntry::Direct(vals) => CEntryM::Direct(tvs(vals@)),
        }
    }
}

/// Model of the combined entry list held in executable form.
pub open spec fn crv(s: Seq<(String, CombinedEntry)>) -> CombinedM {
    Seq::new(s.len(), |i: int| (s[i].0@, s[i].1@))
}

impl View for CombinedRecord {
    type V = CombinedM;

    open spec fn view(&self) -> CombinedM {
        crv(self.entries@)
    }
}

/// Taking an element out and putting another back in its place is an
/// update.
proof fn lemma_remove_insert<A>(s: Seq<A>, i: int, x: A)
    requires
        0 <= i < s.len(),
    ensures
        s.remove(i).insert(i, x) == s.update(i, x),
{
    assert(s.remove(i).insert(i, x) =~= s.update(i, x));
}

/// Append a copy of `v` to `vals` unless a structurally equal value is
/// already there.
#[verifier::loop_isolation(false)]
fn push_value(vals: &mut Vec<TagValue>, v: &TagValue)
    ensures
        tvs(final(vals)@) == add_value(tvs(old(vals)@), v.tv()),
{
    let n = vals.len();
    let mut i: usize = 0;
    while i < n
        invariant
            0 <= i <= n,
            *vals == *old(vals),
            n == vals@.len(),
            forall|j: int| 0 <= j < i ==> vals@[j].tv() != v.tv(),
        decreases n - i,
    {
        if tv_eq(&vals[i], v) {
            proof {
                assert(tvs(vals@)[i as int] == v.tv());
                assert(tvs(vals@).contains(v.tv()));
            }
            return ;
        }
        i += 1;
    }
    proof {
        assert(!tvs(vals@).contains(v.tv())) by {
            if tvs(vals@).contains(v.tv()) {
                let k = choose|k: int|
                    0 <= k < tvs(vals@).len() && tvs(vals@)[k] == v.tv();
                assert(vals@[k].tv() == v.tv());
            }
        }
    }
    let c = tv_clone(v);
    vals.push(c);
    proof {
        assert(tvs(vals@) =~= tvs(old(vals)@).push(v.tv()));
    }
}

/// Fold one tag/value pair into a group held in executable form.
#[verifier::loop_isolation(false)]
fn group_add_exec(g: &mut Vec<(String, Vec<TagValue>)>, tag: &String, v: &TagValue)
    ensures
        gv(final(g)@) == group_add(gv(old(g)@), tag@, v.tv()),
{
    proof {
        assert(keys_of(gv(g@)) =~= str_keys(g@));
    }
    match find_key(g, tag) {
        None => {
            let c = tv_clone(v);
            let mut single: Vec<TagValue> = Vec::new();
            single.push(c);
            proof {
                assert(tvs(single@) =~= seq![v.tv()]);
            }
            g.push((tag.clone(), single));
            proof {
                assert(gv(g@) =~= gv(old(g)@).push((tag@, seq![v.tv()])));
            }
        },
        Some(i) => {
            let (k0, mut vals) = g.remove(i);
            push_value(&mut vals, v);
            g.insert(i, (k0, vals));
            proof {
                lemma_remove_insert(old(g)@, i as int, (k0, vals));
                let gm = gv(old(g)@);
                assert(gv(g@) =~= gm.update(i as int, (gm[i as int].0, add_value(gm[i as int].1, v.tv()))));
            }
        },
    }
}

/// Fold every pair of a nested mapping into the group, in order.
#[verifier::loop_isolation(false)]
fn group_merge_exec(g: &mut Vec<(String, Vec<TagValue>)>, nested: &Vec<(String, TagValue)>)
    ensures
        gv(final(g)@) == group_merge(gv(old(g)@), pairs_v(nested@)),
{
    let ghost pm = pairs_v(nested@);
    proof {
        assert(pm.skip(0) =~= pm);
    }
    let mut j: usize = 0;
    while j < nested.len()
        invariant
            0 <= j <= nested@.len(),
            pm == pairs_v(nested@),
            group_merge(gv(g@), pm.skip(j as int)) == group_merge(gv(old(g)@), pm),
        decreases nested@.len() - j,
    {
        proof {
            assert(pm.skip(j as int)[0] == pm[j as int]);
            assert(pm.skip(j as int).drop_first() =~= pm.skip(j as int + 1));
            assert(pm[j as int] == (nested@[j as int].0@, nested@[j as int].1.tv()));
        }
        let e = &nested[j];
        group_add_exec(g, &e.0, &e.1);
        j += 1;
    }
    proof {
        assert(pm.skip(nested@.len() as int) =~= Seq::<(Seq<char>, Tv)>::empty());
    }
}

/// Fold one key/value pair of one record into the combined record. On
/// success the new state is exactly what the model says; on failure the
/// model fails with the same error.
#[verifier::loop_isolation(false)]
fn combined_add_exec(acc: &mut CombinedRecord, key: &String, value: &TagValue) -> (r: Result<
    (),
    Error,
>)
    ensures
        r is Ok ==> combined_add(crv(old(acc).entries@), key@, value.tv()) == Ok::<
            CombinedM,
            ErrM,
        >(crv(final(acc).entries@)),
        r is Err ==> combined_add(crv(old(acc).entries@), key@, value.tv()) == Err::<
            CombinedM,
            ErrM,
        >(r->Err_0@),
{
    proof {
        assert(keys_of(crv(acc.entries@)) =~= str_keys(acc.entries@));
    }
    match find_key(&acc.entries, key) {
        None => {
            match value {
                TagValue::Obj(nested) => {
                    let mut grp: Vec<(String, Vec<TagValue>)> = Vec::new();
                    proof {
                        assert(gv(grp@) =~= Seq::<(Seq<char>, Seq<Tv>)>::empty());
                    }
                    group_merge_exec(&mut grp, nested);
                    acc.entries.push((key.clone(), CombinedEntry::Group(grp)));
                    proof {
                        assert(crv(acc.entries@) =~= crv(old(acc).entries@).push(
                            (key@, CEntryM::Group(group_merge(Seq::empty(), pairs_v(nested@)))),
                        ));
                    }
                    Ok(())
                },
                _ => {
                    let c = tv_clone(value);
                    let mut single: Vec<TagValue> = Vec::new();
                    single.push(c);
                    proof {
                        assert(tvs(single@) =~= seq![value.tv()]);
                    }
                    acc.entries.push((key.clone(), CombinedEntry::Direct(single)));
                    proof {
                        assert(crv(acc.entries@) =~= crv(old(acc).entries@).push(
                            (key@, CEntryM::Direct(seq![value.tv()])),
                        ));
                    }
                    Ok(())
                },
            }
        },
        Some(i) => {
            let (k0, ce) = acc.entries.remove(i);
            match ce {
                CombinedEntry::Group(mut grp) => match value {
                    TagValue::Obj(nested) => {
                        let ghost grp0 = gv(grp@);
                        group_merge_exec(&mut grp, nested);
                        acc.entries.insert(i, (k0, CombinedEntry::Group(grp)));
                        proof {
                            lemma_remove_insert(
                                old(acc).entries@,
                                i as int,
                                (k0, CombinedEntry::Group(grp)),
                            );
                            let am = crv(old(acc).entries@);
                            assert(crv(acc.entries@) =~= am.update(
                                i as int,
                                (am[i as int].0, CEntryM::Group(group_merge(grp0, pairs_v(nested@)))),
                            ));
                        }
                        Ok(())
                    },
                    _ => Err(Error::type_mismatch(key)),
                },
                CombinedEntry::Direct(mut vals) => match value {
                    TagValue::Obj(_) => Err(Error::type_mismatch(key)),
                    _ => {
                        let ghost vals0 = tvs(vals@);
                        push_value(&mut vals, value);
                        acc.entries.insert(i, (k0, CombinedEntry::Direct(vals)));
                        proof {
                            lemma_remove_insert(
                                old(acc).entries@,
                                i as int,
                                (k0, CombinedEntry::Direct(vals)),
                            );
                            let am = crv(old(acc).entries@);
                            assert(crv(acc.entries@) =~= am.update(
                                i as int,
                                (am[i as int].0, CEntryM::Direct(add_value(vals0, value.tv()))),
                            ));
                        }
                        Ok(())
                    },
                },
            }
        },
    }
}

/// Merge a sequence of per-file records into one combined record. The
/// result, success or failure, is exactly what the model `combine_spec`
/// says for the models of the inputs.
#[verifier::loop_isolation(false)]
pub fn combine(records: &Vec<TagValue>) -> (r: Result<CombinedRecord, Error>)
    ensures
        r is Ok ==> combine_spec(tvs(records@)) == Ok::<CombinedM, ErrM>(r->Ok_0@),
        r is Ok ==> combined_wf(r->Ok_0@),
        r is Err ==> combine_spec(tvs(records@)) == Err::<CombinedM, ErrM>(r->Err_0@),
{
    let ghost all = tvs(records@);
    let mut acc = CombinedRecord { entries: Vec::new() };
    proof {
        assert(all.skip(0) =~= all);
        assert(crv(acc.entries@) =~= Seq::<(Seq<char>, CEntryM)>::empty());
    }
    let mut idx: usize = 0;
    while idx < records.len()
        invariant
            0 <= idx <= records@.len(),
            all == tvs(records@),
            combine_from(crv(acc.entries@), all.skip(idx as int)) == combine_spec(all),
        decreases records@.len() - idx,
    {
        proof {
            assert(all.skip(idx as int)[0] == all[idx as int]);
            assert(all.skip(idx as int).drop_first() =~= all.skip(idx as int + 1));
            assert(all[idx as int] == records@[idx as int].tv());
        }
        let record = &records[idx];
        match record {
            TagValue::Obj(entries) => {
                let ghost pm = pairs_v(entries@);
                let ghost acc0 = crv(acc.entries@);
                proof {
                    assert(pm.skip(0) =~= pm);
                }
                let mut j: usize = 0;
                while j < entries.len()
                    invariant
                        0 <= j <= entries@.len(),
                        pm == pairs_v(entries@),
                        record_merge(crv(acc.entries@), pm.skip(j as int)) == record_merge(
                            acc0,
                            pm,
                        ),
                    decreases entries@.len() - j,
                {
                    proof {
                        assert(pm.skip(j as int)[0] == pm[j as int]);
                        assert(pm.skip(j as int).drop_first() =~= pm.skip(j as int + 1));
                        assert(pm[j as int] == (entries@[j as int].0@, entries@[j as int].1.tv()));
                    }
                    let e = &entries[j];
                    match combined_add_exec(&mut acc, &e.0, &e.1) {
                        Ok(_) => {},
                        Err(err) => {
                            return Err(err);
                        },
                    }
                    j += 1;
                }
                proof {
                    assert(pm.skip(entries@.len() as int) =~= Seq::<(Seq<char>, Tv)>::empty());
                }
            },
            _ => {
                return Err(Error::invalid_input());
            },
        }
        idx += 1;
    }
    proof {
        assert(all.skip(records@.len() as int) =~= Seq::<Tv>::empty());
        lemma_combine_dedup(all);
    }
    Ok(acc)
}

/// No two elements of the sequence are equal.
pub open spec fn distinct_seq(s: Seq<Tv>) -> bool {
    forall|i: int, j: int| #![trigger s[i], s[j]] 0 <= i < j < s.len() ==> s[i] != s[j]
}

/// A well-formed group: tags unique, every run non-empty and free of
/// duplicates.
pub open spec fn group_wf(g: Seq<(Seq<char>, Seq<Tv>)>) -> bool {
    &&& keys_unique(g)
    &&& forall|i: int|
        0 <= i < g.len() ==> (#[trigger] g[i]).1.len() >= 1 && distinct_seq(g[i].1)
}

/// A well-formed combined entry.
pub open spec fn entry_wf(e: CEntryM) -> bool {
    match e {
        CEntryM::Group(g) => group_wf(g),
        CEntryM::Direct(vals) => vals.len() >= 1 && distinct_seq(vals),
    }
}

/// A well-formed combined record: keys unique, every entry well-formed.
pub open spec fn combined_wf(c: CombinedM) -> bool {
    &&& keys_unique(c)
    &&& forall|i: int| 0 <= i < c.len() ==> entry_wf((#[trigger] c[i]).1)
}

proof fn lemma_add_value_distinct(vals: Seq<Tv>, v: Tv)
    requires
        distinct_seq(vals),
    ensures
        distinct_seq(add_value(vals, v)),
        add_value(vals, v).len() >= 1,
        add_value(vals, v).len() >= vals.len(),
{
    if !vals.contains(v) {
        assert forall|i: int, j: int|
            0 <= i < j < add_value(vals, v).len() implies #[trigger] add_value(vals, v)[i]
            != #[trigger] add_value(vals, v)[j] by {
            if j == vals.len() {
                assert(add_value(vals, v)[i] == vals[i]);
                assert(!vals.contains(v));
                assert(vals[i] != v);
            }
        }
    }
}

proof fn lemma_group_add_wf(g: Seq<(Seq<char>, Seq<Tv>)>, tag: Seq<char>, v: Tv)
    requires
        group_wf(g),
    ensures
        group_wf(group_add(g, tag, v)),
{
    crate::assoc::lemma_first_key_idx(keys_of(g), tag);
    let i = first_key_idx(keys_of(g), tag);
    if i < 0 {
        let g2 = g.push((tag, seq![v]));
        assert forall|p: int, q: int|
            0 <= p < q < g2.len() implies (#[trigger] g2[p]).0 != (#[trigger] g2[q]).0 by {
            if q == g.len() {
                assert(keys_of(g)[p] == g[p].0);
            }
        }
        assert(group_wf(g2));
    } else {
        lemma_add_value_distinct(g[i].1, v);
        let g2 = g.update(i, (g[i].0, add_value(g[i].1, v)));
        assert(group_wf(g2));
    }
}

proof fn lemma_group_merge_wf(g: Seq<(Seq<char>, Seq<Tv>)>, entries: Seq<(Seq<char>, Tv)>)
    requires
        group_wf(g),
    ensures
        group_wf(group_merge(g, entries)),
    decreases entries.len(),
{
    if entries.len() > 0 {
        lemma_group_add_wf(g, entries[0].0, entries[0].1);
        lemma_group_merge_wf(group_add(g, entries[0].0, entries[0].1), entries.drop_first());
    }
}

proof fn lemma_combined_add_wf(acc: CombinedM, key: Seq<char>, v: Tv)
    requires
        combined_wf(acc),
        combined_add(acc, key, v) is Ok,
    ensures
        combined_wf(combined_add(acc, key, v)->Ok_0),
{
    crate::assoc::lemma_first_key_idx(keys_of(acc), key);
    let i = first_key_idx(keys_of(acc), key);
    if i < 0 {
        let e = match v {
            Tv::Obj(nested) => CEntryM::Group(group_merge(Seq::empty(), nested)),
            _ => CEntryM::Direct(seq![v]),
        };
        if v is Obj {
            lemma_group_merge_wf(Seq::empty(), v->Obj_0);
        }
        let c2 = acc.push((key, e));
        assert forall|p: int, q: int|
            0 <= p < q < c2.len() implies (#[trigger] c2[p]).0 != (#[trigger] c2[q]).0 by {
            if q == acc.len() {
                assert(keys_of(acc)[p] == acc[p].0);
            }
        }
        assert(entry_wf(e));
        assert(combined_wf(c2));
    } else {
        match acc[i].1 {
            CEntryM::Group(g) => {
                lemma_group_merge_wf(g, v->Obj_0);
            },
            CEntryM::Direct(vals) => {
                lemma_add_value_distinct(vals, v);
            },
        }
        let r = combined_add(acc, key, v)->Ok_0;
        assert(combined_wf(r));
    }
}

proof fn lemma_record_merge_wf(acc: CombinedM, entries: Seq<(Seq<char>, Tv)>)
    requires
        combined_wf(acc),
        record_merge(acc, entries) is Ok,
    ensures
        combined_wf(record_merge(acc, entries)->Ok_0),
    decreases entries.len(),
{
    if entries.len() > 0 {
        lemma_combined_add_wf(acc, entries[0].0, entries[0].1);
        lemma_record_merge_wf(
            combined_add(acc, entries[0].0, entries[0].1)->Ok_0,
            entries.drop_first(),
        );
    }
}

proof fn lemma_combine_from_wf(acc: CombinedM, records: Seq<Tv>)
    requires
        combined_wf(acc),
        combine_from(acc, records) is Ok,
    ensures
        combined_wf(combine_from(acc, records)->Ok_0),
    decreases records.len(),
{
    if records.len() > 0 {
        lemma_record_merge_wf(acc, records[0]->Obj_0);
        lemma_combine_from_wf(
            record_merge(acc, records[0]->Obj_0)->Ok_0,
            records.drop_first(),
        );
    }
}

/// Law: a successful combination is deduplicated. Its keys are unique
/// at both levels, and every run of values is non-empty and holds no
/// two equal values.
pub proof fn lemma_combine_dedup(records: Seq<Tv>)
    requires
        combine_spec(records) is Ok,
    ensures
        combined_wf(combine_spec(records)->Ok_0),
{
    lemma_combine_from_wf(Seq::empty(), records);
}

/// Law: combining no records yields the empty combined record, not an
/// error.
pub proof fn lemma_combine_empty()
    ensures
        combine_spec(Seq::<Tv>::empty()) == Ok::<CombinedM, ErrM>(
            Seq::<(Seq<char>, CEntryM)>::empty(),
        ),
{
}

/// Law: a value not yet in a run is appended at its end, so first-seen
/// order is preserved; a value already in the run leaves it unchanged.
pub proof fn lemma_add_value_order(vals: Seq<Tv>, v: Tv)
    ensures
        !vals.contains(v) ==> add_value(vals, v) == vals.push(v),
        vals.contains(v) ==> add_value(vals, v) == vals,
{
}

/// How one value of a fresh key lifts into a combined entry: a nested
/// mapping becomes a group of one-element runs, anything else a direct
/// one-element run.
pub open spec fn lifted_entry(v: Tv) -> CEntryM {
    match v {
        Tv::Obj(nested) => CEntryM::Group(
            Seq::new(nested.len(), |i: int| (nested[i].0, seq![nested[i].1])),
        ),
        _ => CEntryM::Direct(seq![v]),
    }
}

/// A record is a proper mapping: its keys are unique, and so are the
/// keys of every nested mapping value.
pub open spec fn record_keys_unique(entries: Seq<(Seq<char>, Tv)>) -> bool {
    &&& keys_unique(entries)
    &&& forall|i: int|
        0 <= i < entries.len() ==> ((#[trigger] entries[i]).1 is Obj ==> keys_unique(
            entries[i].1->Obj_0,
        ))
}

proof fn lemma_group_merge_fresh(
    g: Seq<(Seq<char>, Seq<Tv>)>,
    nested: Seq<(Seq<char>, Tv)>,
)
    requires
        keys_unique(nested),
        forall|i: int| 0 <= i < nested.len() ==> !keys_of(g).contains((#[trigger] nested[i]).0),
    ensures
        group_merge(g, nested) == g + Seq::new(
            nested.len(),
            |i: int| (nested[i].0, seq![nested[i].1]),
        ),
    decreases nested.len(),
{
    let lift = Seq::new(nested.len(), |i: int| (nested[i].0, seq![nested[i].1]));
    if nested.len() == 0 {
        assert(g + lift =~= g);
    } else {
        let e0 = nested[0];
        crate::assoc::lemma_first_key_idx(keys_of(g), e0.0);
        let i0 = first_key_idx(keys_of(g), e0.0);
        if i0 >= 0 {
            assert(keys_of(g).contains(e0.0));
        }
        let g1 = g.push((e0.0, seq![e0.1]));
        assert(group_add(g, e0.0, e0.1) == g1);
        let rest = nested.drop_first();
        assert forall|i: int|
            0 <= i < rest.len() implies !keys_of(g1).contains((#[trigger] rest[i]).0) by {
            assert(rest[i] == nested[i + 1]);
            if keys_of(g1).contains(rest[i].0) {
                let w = choose|w: int|
                    0 <= w < keys_of(g1).len() && keys_of(g1)[w] == rest[i].0;
                if w < g.len() {
                    assert(keys_of(g)[w] == rest[i].0);
                    assert(keys_of(g).contains(rest[i].0));
                } else {
                    assert(keys_of(g1)[w] == e0.0);
                    assert(nested[0].0 != nested[i + 1].0);
                }
            }
        }
        lemma_group_merge_fresh(g1, rest);
        let liftr = Seq::new(rest.len(), |i: int| (rest[i].0, seq![rest[i].1]));
        assert(g1 + liftr =~= g + lift);
    }
}

proof fn lemma_record_merge_fresh(acc: CombinedM, entries: Seq<(Seq<char>, Tv)>)
    requires
        record_keys_unique(entries),
        forall|i: int| 0 <= i < entries.len() ==> !keys_of(acc).contains((#[trigger] entries[i]).0),
    ensures
        record_merge(acc, entries) == Ok::<CombinedM, ErrM>(
            acc + Seq::new(entries.len(), |i: int| (entries[i].0, lifted_entry(entries[i].1))),
        ),
    decreases entries.len(),
{
    let lift = Seq::new(entries.len(), |i: int| (entries[i].0, lifted_entry(entries[i].1)));
    if entries.len() == 0 {
        assert(acc + lift =~= acc);
    } else {
        let e0 = entries[0];
        crate::assoc::lemma_first_key_idx(keys_of(acc), e0.0);
        let i0 = first_key_idx(keys_of(acc), e0.0);
        if i0 >= 0 {
            assert(keys_of(acc).contains(e0.0));
        }
        if e0.1 is Obj {
            let nested = e0.1->Obj_0;
            assert forall|i: int|
                0 <= i < nested.len() implies !keys_of(
                Seq::<(Seq<char>, Seq<Tv>)>::empty(),
            ).contains((#[trigger] nested[i]).0) by {
                assert(keys_of(Seq::<(Seq<char>, Seq<Tv>)>::empty()).len() == 0);
            }
            lemma_group_merge_fresh(Seq::empty(), nested);
            assert(Seq::<(Seq<char>, Seq<Tv>)>::empty() + Seq::new(
                nested.len(),
                |i: int| (nested[i].0, seq![nested[i].1]),
            ) =~= Seq::new(nested.len(), |i: int| (nested[i].0, seq![nested[i].1])));
        }
        let a1 = acc.push((e0.0, lifted_entry(e0.1)));
        assert(combined_add(acc, e0.0, e0.1) == Ok::<CombinedM, ErrM>(a1));
        let rest = entries.drop_first();
        assert forall|i: int|
            0 <= i < rest.len() implies !keys_of(a1).contains((#[trigger] rest[i]).0) by {
            assert(rest[i] == entries[i + 1]);
            if keys_of(a1).contains(rest[i].0) {
                let w = choose|w: int|
                    0 <= w < keys_of(a1).len() && keys_of(a1)[w] == rest[i].0;
                if w < acc.len() {
                    assert(keys_of(acc)[w] == rest[i].0);
                    assert(keys_of(acc).contains(rest[i].0));
                } else {
                    assert(keys_of(a1)[w] == e0.0);
                    assert(entries[0].0 != entries[i + 1].0);
                }
            }
        }
        assert(record_keys_unique(rest)) by {
            assert forall|i: int, j: int|
                0 <= i < j < rest.len() implies (#[trigger] rest[i]).0
                != (#[trigger] rest[j]).0 by {
                assert(rest[i] == entries[i + 1]);
                assert(rest[j] == entries[j + 1]);
            }
            assert forall|i: int|
                0 <= i < rest.len() implies ((#[trigger] rest[i]).1 is Obj ==> keys_unique(
                rest[i].1->Obj_0,
            )) by {
                assert(rest[i] == entries[i + 1]);
            }
        }
        lemma_record_merge_fresh(a1, rest);
        let liftr = Seq::new(rest.len(), |i: int| (rest[i].0, lifted_entry(rest[i].1)));
        assert(a1 + liftr =~= acc + lift);
    }
}

/// Law: combining a single record keeps it as it is, with every value
/// wrapped in a one-element run and nested mappings flattened one
/// level into groups.
pub proof fn lemma_combine_single(entries: Seq<(Seq<char>, Tv)>)
    requires
        record_keys_unique(entries),
    ensures
        combine_spec(seq![Tv::Obj(entries)]) == Ok::<CombinedM, ErrM>(
            Seq::new(entries.len(), |i: int| (entries[i].0, lifted_entry(entries[i].1))),
        ),
{
    let records = seq![Tv::Obj(entries)];
    let acc0 = Seq::<(Seq<char>, CEntryM)>::empty();
    assert forall|i: int|
        0 <= i < entries.len() implies !keys_of(acc0).contains((#[trigger] entries[i]).0) by {
        assert(keys_of(acc0).len() == 0);
    }
    lemma_record_merge_fresh(acc0, entries);
    let lift = Seq::new(entries.len(), |i: int| (entries[i].0, lifted_entry(entries[i].1)));
    assert(acc0 + lift =~= lift);
    assert(records[0] == Tv::Obj(entries));
    assert(records[0]->Obj_0 == entries);
    assert(record_merge(acc0, records[0]->Obj_0) == Ok::<CombinedM, ErrM>(acc0 + lift));
    assert(records.drop_first().len() == 0);
    assert(combine_from(acc0 + lift, records.drop_first()) == Ok::<CombinedM, ErrM>(acc0 + lift));
    assert(combine_spec(records) == Ok::<CombinedM, ErrM>(acc0 + lift));
}

} // verus!
