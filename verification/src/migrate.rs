//! The migration runner's logic: which of the embedded, ordered schema
//! migrations still have to be applied against a store, in what order, and
//! what the store's record looks like after complete and after interrupted
//! runs. The execution of a forward script is outside work; the caller
//! performs it and reports each outcome back.

use vstd::prelude::*;
use vstd::seq_lib::group_seq_properties;

verus! {

/// A migration run failed: the named migration's forward script did not
/// succeed, and neither it nor any later migration was recorded.
pub struct MigrationError {
    pub failed: String,
}

/// The migrations a run still has to apply: the embedded ones, in embedded
/// order, that the store does not record as applied.
pub open spec fn to_apply(embedded: Seq<Seq<char>>, applied: Seq<Seq<char>>) -> Seq<Seq<char>>
    decreases embedded.len(),
{
    if embedded.len() == 0 {
        Seq::empty()
    } else if applied.contains(embedded.first()) {
        to_apply(embedded.drop_first(), applied)
    } else {
        seq![embedded.first()] + to_apply(embedded.drop_first(), applied)
    }
}

/// What `to_apply` selects: exactly the embedded names the record lacks.
pub proof fn lemma_to_apply_elems(embedded: Seq<Seq<char>>, applied: Seq<Seq<char>>)
    ensures
        forall|m: Seq<char>| #[trigger] to_apply(embedded, applied).contains(m)
            <==> embedded.contains(m) && !applied.contains(m),
    decreases embedded.len(),
{
    broadcast use group_seq_properties;

    if embedded.len() > 0 {
        let e = embedded.first();
        let rest = embedded.drop_first();
        lemma_to_apply_elems(rest, applied);
        assert(embedded[0] == e && embedded.contains(e));
        assert forall|m: Seq<char>| embedded.contains(m) && !applied.contains(m) implies
            #[trigger] to_apply(embedded, applied).contains(m) by {
            if m == e {
                assert(to_apply(embedded, applied) == seq![e] + to_apply(rest, applied));
                assert((seq![e] + to_apply(rest, applied))[0] == e);
            } else {
                let i = choose|i: int| 0 <= i < embedded.len() && embedded[i] == m;
                assert(rest[i - 1] == m);
                assert(rest.contains(m));
                assert(to_apply(rest, applied).contains(m));
            }
        }
        assert forall|m: Seq<char>| #[trigger] to_apply(embedded, applied).contains(m) implies
            embedded.contains(m) && !applied.contains(m) by {
            if applied.contains(e) {
                assert(to_apply(rest, applied).contains(m));
            } else {
                assert((seq![e] + to_apply(rest, applied)).contains(m));
                if m != e {
                    let i = choose|i: int| 0 <= i < (seq![e] + to_apply(rest, applied)).len()
                        && (seq![e] + to_apply(rest, applied))[i] == m;
                    assert(to_apply(rest, applied)[i - 1] == m);
                    assert(to_apply(rest, applied).contains(m));
                }
            }
            if m != e && rest.contains(m) {
                let i = choose|i: int| 0 <= i < rest.len() && rest[i] == m;
                assert(embedded[i + 1] == m);
            }
        }
    }
}

/// `to_apply` asks only whether a name is recorded, never where: two records
/// with the same names select the same migrations.
proof fn lemma_to_apply_congruence(
    embedded: Seq<Seq<char>>,
    a1: Seq<Seq<char>>,
    a2: Seq<Seq<char>>,
)
    requires
        forall|m: Seq<char>| #[trigger] a1.contains(m) <==> #[trigger] a2.contains(m),
    ensures
        to_apply(embedded, a1) == to_apply(embedded, a2),
    decreases embedded.len(),
{
    if embedded.len() > 0 {
        lemma_to_apply_congruence(embedded.drop_first(), a1, a2);
    }
}

/// Recording a name that is not embedded changes nothing about a run.
proof fn lemma_to_apply_foreign_record(
    embedded: Seq<Seq<char>>,
    applied: Seq<Seq<char>>,
    m: Seq<char>,
)
    requires
        !embedded.contains(m),
    ensures
        to_apply(embedded, applied + seq![m]) == to_apply(embedded, applied),
    decreases embedded.len(),
{
    broadcast use group_seq_properties;

    if embedded.len() > 0 {
        assert(embedded.contains(embedded.first()));
        assert forall|j: int| 0 <= j < embedded.drop_first().len() implies
            embedded.drop_first()[j] != m by {
            assert(embedded[j + 1] == embedded.drop_first()[j]);
        }
        lemma_to_apply_foreign_record(embedded.drop_first(), applied, m);
        assert((applied + seq![m]).contains(embedded.first())
            <==> applied.contains(embedded.first()) || seq![m].contains(embedded.first()));
        assert(seq![m].contains(embedded.first()) ==> seq![m][0] == embedded.first());
        assert(embedded.first() != m);
    }
}

/// A record that covers every embedded name leaves nothing to apply.
proof fn lemma_to_apply_covered(embedded: Seq<Seq<char>>, applied: Seq<Seq<char>>)
    requires
        forall|m: Seq<char>| #[trigger] embedded.contains(m) ==> applied.contains(m),
    ensures
        to_apply(embedded, applied) == Seq::<Seq<char>>::empty(),
    decreases embedded.len(),
{
    broadcast use group_seq_properties;

    if embedded.len() > 0 {
        assert(embedded.contains(embedded.first()));
        assert forall|m: Seq<char>| #[trigger] embedded.drop_first().contains(m) implies
            applied.contains(m) by {
            let i = choose|i: int| 0 <= i < embedded.drop_first().len()
                && embedded.drop_first()[i] == m;
            assert(embedded[i + 1] == m);
            assert(embedded.contains(m));
        }
        lemma_to_apply_covered(embedded.drop_first(), applied);
    }
}

/// Law: a migration run is idempotent. After a complete successful run — the
/// record grew by everything there was to apply — a second run against the
/// same store has nothing to apply.
pub proof fn lemma_second_run_applies_nothing(
    embedded: Seq<Seq<char>>,
    applied: Seq<Seq<char>>,
)
    ensures
        to_apply(embedded, applied + to_apply(embedded, applied)) == Seq::<Seq<char>>::empty(),
{
    broadcast use group_seq_properties;

    lemma_to_apply_elems(embedded, applied);
    let after = applied + to_apply(embedded, applied);
    assert forall|m: Seq<char>| #[trigger] embedded.contains(m) implies after.contains(m) by {
        if !applied.contains(m) {
            assert(to_apply(embedded, applied).contains(m));
        }
    }
    lemma_to_apply_covered(embedded, after);
}

/// Law: an interrupted run loses nothing and repeats nothing. If the run
/// failed at its `k`-th pending migration, the record grew by exactly the
/// `k` migrations before it, the failing one is not recorded, and a
/// subsequent run applies exactly the failing migration and those after it,
/// in the same order.
pub proof fn lemma_resume_after_failure(
    embedded: Seq<Seq<char>>,
    applied: Seq<Seq<char>>,
    k: int,
)
    requires
        embedded.no_duplicates(),
        0 <= k < to_apply(embedded, applied).len(),
    ensures
        !(applied + to_apply(embedded, applied).take(k)).contains(
            to_apply(embedded, applied)[k],
        ),
        to_apply(embedded, applied + to_apply(embedded, applied).take(k))
            == to_apply(embedded, applied).skip(k),
    decreases embedded.len(),
{
    broadcast use group_seq_properties;

    let t = to_apply(embedded, applied);
    lemma_to_apply_elems(embedded, applied);
    let rest = embedded.drop_first();
    assert(embedded.len() > 0);
    let e = embedded.first();
    assert forall|i: int, j: int| 0 <= i < j < rest.len() implies rest[i] != rest[j] by {
        assert(embedded[i + 1] == rest[i]);
        assert(embedded[j + 1] == rest[j]);
    }
    assert(rest.no_duplicates());
    if applied.contains(e) {
        lemma_resume_after_failure(rest, applied, k);
        assert((applied + t.take(k)).contains(e));
    } else {
        let tr = to_apply(rest, applied);
        assert(t == seq![e] + tr);
        if k == 0 {
            assert(t.take(0) =~= Seq::<Seq<char>>::empty());
            assert forall|m: Seq<char>| #[trigger] (applied + t.take(0)).contains(m)
                <==> applied.contains(m) by {}
            lemma_to_apply_congruence(embedded, applied + t.take(0), applied);
            assert(t.skip(0) =~= t);
            assert(t[0] == e);
        } else {
            assert forall|j: int| 0 <= j < rest.len() implies rest[j] != e by {
                assert(embedded[j + 1] == rest[j]);
            }
            assert(!rest.contains(e));
            lemma_to_apply_foreign_record(rest, applied, e);
            assert(to_apply(rest, applied + seq![e]) == tr);
            assert(t[k] == tr[k - 1]);
            lemma_resume_after_failure(rest, applied + seq![e], k - 1);
            let a2 = applied + t.take(k);
            let a2p = (applied + seq![e]) + tr.take(k - 1);
            assert(t.take(k) =~= seq![e] + tr.take(k - 1));
            assert forall|m: Seq<char>| #[trigger] a2.contains(m) <==> #[trigger] a2p.contains(
                m,
            ) by {
                assert(a2.contains(m) <==> applied.contains(m) || (seq![e] + tr.take(k
                    - 1)).contains(m));
                assert(a2p.contains(m) <==> applied.contains(m) || seq![e].contains(m)
                    || tr.take(k - 1).contains(m));
            }
            assert(a2.contains(e));
            assert(to_apply(embedded, a2) == to_apply(rest, a2));
            lemma_to_apply_congruence(rest, a2, a2p);
            assert(to_apply(rest, a2p) == tr.skip(k - 1));
            assert(t.skip(k) =~= tr.skip(k - 1));
            assert(!a2p.contains(tr[k - 1]));
        }
    }
}

/// Law: recording the first pending migration advances the run by exactly
/// one. What remains to apply afterwards is the rest of the old plan, in the
/// same order: a run that alternates `next_pending` and `record_applied`
/// walks the plan front to back, applying each pending migration once.
pub proof fn lemma_record_first_pending(embedded: Seq<Seq<char>>, applied: Seq<Seq<char>>)
    requires
        embedded.no_duplicates(),
        to_apply(embedded, applied).len() > 0,
    ensures
        to_apply(embedded, applied.push(to_apply(embedded, applied).first()))
            == to_apply(embedded, applied).drop_first(),
{
    broadcast use group_seq_properties;

    let t = to_apply(embedded, applied);
    if t.len() == 1 {
        lemma_to_apply_elems(embedded, applied);
        assert forall|m: Seq<char>| #[trigger] embedded.contains(m) implies applied.push(
            t.first(),
        ).contains(m) by {
            if !applied.contains(m) {
                assert(t.contains(m));
                let i = choose|i: int| 0 <= i < t.len() && t[i] == m;
                assert(m == t.first());
            }
        }
        lemma_to_apply_covered(embedded, applied.push(t.first()));
        assert(t.drop_first() =~= Seq::<Seq<char>>::empty());
    } else {
        lemma_resume_after_failure(embedded, applied, 1);
        assert(applied + t.take(1) =~= applied.push(t.first()));
        assert(t.skip(1) =~= t.drop_first());
    }
}

/// One migration run in progress: the embedded, ordered migration names and
/// the store's record of what is already applied. The caller executes each
/// pending migration's script and reports success by recording it.
pub struct MigrationRun {
    embedded: Vec<String>,
    applied: Vec<String>,
}

impl MigrationRun {
    /// The embedded migration names, in their fixed order.
    pub closed spec fn embedded_names(self) -> Seq<Seq<char>> {
        self.embedded.deep_view()
    }

    /// The store's record of applied migration names.
    pub closed spec fn applied_names(self) -> Seq<Seq<char>> {
        self.applied.deep_view()
    }

    /// Embedded migrations are uniquely named.
    pub open spec fn well_formed(self) -> bool {
        self.embedded_names().no_duplicates()
    }

    pub fn new(embedded: Vec<String>, applied: Vec<String>) -> (r: Self)
        ensures
            r.embedded_names() == embedded.deep_view(),
            r.applied_names() == applied.deep_view(),
    {
        MigrationRun { embedded, applied }
    }

    /// The first migration the run still has to apply: the earliest embedded
    /// name the record lacks. `None` exactly when nothing is pending.
    pub fn next_pending(&self) -> (r: Option<String>)
        ensures
            match r {
                None => to_apply(self.embedded_names(), self.applied_names()).len() == 0,
                Some(name) => {
                    &&& to_apply(self.embedded_names(), self.applied_names()).len() > 0
                    &&& name@ == to_apply(self.embedded_names(), self.applied_names()).first()
                },
            },
    {
        let n = self.embedded.len();
        let mut i: usize = 0;
        while i < n
            invariant
                0 <= i <= n,
                n == self.embedded_names().len(),
                self.embedded.deep_view() == self.embedded_names(),
                self.applied.deep_view() == self.applied_names(),
                forall|j: int| 0 <= j < i ==> self.applied_names().contains(
                    #[trigger] self.embedded_names()[j],
                ),
            decreases n - i,
        {
            if !contains_name(&self.applied, &self.embedded[i]) {
                proof {
                    lemma_to_apply_skip_applied(
                        self.embedded_names(),
                        self.applied_names(),
                        i as int,
                    );
                    assert(self.embedded_names().skip(i as int).first()
                        == self.embedded_names()[i as int]);
                }
                return Some(self.embedded[i].clone());
            }
            i = i + 1;
        }
        proof {
            lemma_to_apply_skip_applied(self.embedded_names(), self.applied_names(), n as int);
            assert(self.embedded_names().skip(n as int) =~= Seq::<Seq<char>>::empty());
        }
        None
    }

    /// Records one applied migration, after the caller has executed its
    /// forward script successfully. Only the first pending migration may be
    /// recorded: migrations are applied in their fixed order.
    pub fn record_applied(&mut self, name: &String)
        requires
            to_apply(old(self).embedded_names(), old(self).applied_names()).len() > 0,
            name@ == to_apply(old(self).embedded_names(), old(self).applied_names()).first(),
        ensures
            final(self).embedded_names() == old(self).embedded_names(),
            final(self).applied_names() == old(self).applied_names().push(name@),
    {
        self.applied.push(name.clone());
        proof {
            assert(self.applied.deep_view() =~= old(self).applied.deep_view().push(name@));
        }
    }

    /// The record, in the order the store received it.
    pub fn recorded(&self) -> (r: &Vec<String>)
        ensures
            r.deep_view() == self.applied_names(),
    {
        &self.applied
    }
}

/// Whether a record holds a name.
fn contains_name(names: &Vec<String>, name: &String) -> (r: bool)
    ensures
        r == names.deep_view().contains(name@),
{
    broadcast use group_seq_properties;

    let n = names.len();
    let mut i: usize = 0;
    while i < n
        invariant
            0 <= i <= n,
            n == names.len(),
            forall|j: int| 0 <= j < i ==> names.deep_view()[j] != name@,
        decreases n - i,
    {
        if names[i].eq(name) {
            assert(names.deep_view()[i as int] == name@);
            return true;
        }
        i = i + 1;
    }
    false
}

/// A fully-applied prefix does not change what a run has to apply.
proof fn lemma_to_apply_skip_applied(
    embedded: Seq<Seq<char>>,
    applied: Seq<Seq<char>>,
    i: int,
)
    requires
        0 <= i <= embedded.len(),
        forall|j: int| 0 <= j < i ==> applied.contains(#[trigger] embedded[j]),
    ensures
        to_apply(embedded, applied) == to_apply(embedded.skip(i), applied),
    decreases i,
{
    broadcast use group_seq_properties;

    if i > 0 {
        assert(applied.contains(embedded[0]));
        assert(embedded.first() == embedded[0]);
        assert(to_apply(embedded, applied) == to_apply(embedded.drop_first(), applied));
        assert forall|j: int| 0 <= j < i - 1 implies applied.contains(
            #[trigger] embedded.drop_first()[j],
        ) by {
            assert(embedded.drop_first()[j] == embedded[j + 1]);
        }
        lemma_to_apply_skip_applied(embedded.drop_first(), applied, i - 1);
        assert(embedded.drop_first().skip(i - 1) =~= embedded.skip(i));
    } else {
        assert(embedded.skip(0) =~= embedded);
    }
}

} // verus!
