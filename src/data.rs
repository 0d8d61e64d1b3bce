use vstd::prelude::*;
use vstd::utf8::{decode_utf8, valid_utf8};
use core::cmp::Ordering;
use crate::names::{
    compare_names, lemma_name_lt_asymmetric, lemma_name_lt_irreflexive, lemma_name_lt_total,
    lemma_name_lt_transitive, name_lt,
};

verus! {

/// A file to be uploaded as part of a Gist.
#[derive(Debug, PartialEq)]
pub struct File {
    pub content: String,
}

/// A file of the payload in the abstract: its name and its text.
pub type FileView = (Seq<char>, Seq<char>);

/// The files of a payload in the abstract.
pub open spec fn files_view(files: Seq<(String, File)>) -> Seq<FileView> {
    files.map_values(|f: (String, File)| (f.0@, f.1.content@))
}

/// What `String::from_utf8_lossy` makes of a byte sequence.
pub uninterp spec fn lossy_text(bytes: Seq<u8>) -> Seq<char>;

/// Relies on `String::from_utf8_lossy`: invalid sequences become U+FFFD, and valid
/// UTF-8 is decoded unchanged.
#[verifier::external_body]
fn from_utf8_lossy(bytes: &Vec<u8>) -> (r: String)
    ensures
        r@ == lossy_text(bytes@),
        valid_utf8(bytes@) ==> r@ == decode_utf8(bytes@),
{
    String::from_utf8_lossy(bytes).into_owned()
}

impl File {
    /// A file whose text is `bytes`, decoded lossily.
    pub fn from_bytes(bytes: &Vec<u8>) -> (r: File)
        ensures
            r.content@ == lossy_text(bytes@),
            valid_utf8(bytes@) ==> r.content@ == decode_utf8(bytes@),
    {
        File { content: from_utf8_lossy(bytes) }
    }
}

/// The files with `f` put in place: a file of the same name is replaced, otherwise `f`
/// goes before the first file whose name follows its own.
pub open spec fn insert_sorted<V>(s: Seq<(Seq<char>, V)>, f: (Seq<char>, V)) -> Seq<(Seq<char>, V)>
    decreases s.len(),
{
    if s.len() == 0 {
        seq![f]
    } else if s[0].0 == f.0 {
        seq![f] + s.drop_first()
    } else if name_lt(f.0, s[0].0) {
        seq![f] + s
    } else {
        seq![s[0]] + insert_sorted(s.drop_first(), f)
    }
}

/// The files of a payload built from `entries`, in their order: sorted by name, and for
/// each name the last entry that carries it.
pub open spec fn payload_of<V>(entries: Seq<(Seq<char>, V)>) -> Seq<(Seq<char>, V)>
    decreases entries.len(),
{
    if entries.len() == 0 {
        Seq::empty()
    } else {
        insert_sorted(payload_of(entries.drop_last()), entries.last())
    }
}

/// Names strictly ascending.
pub open spec fn names_ascending<V>(s: Seq<(Seq<char>, V)>) -> bool {
    forall|i: int, j: int| 0 <= i < j < s.len() ==> name_lt(#[trigger] s[i].0, #[trigger] s[j].0)
}

proof fn lemma_insert_sorted_at<V>(s: Seq<(Seq<char>, V)>, f: (Seq<char>, V), p: int)
    requires
        0 <= p <= s.len(),
        forall|j: int| 0 <= j < p ==> s[j].0 != f.0 && !name_lt(f.0, #[trigger] s[j].0),
        p == s.len() || s[p].0 == f.0 || name_lt(f.0, s[p].0),
    ensures
        insert_sorted(s, f) == if p < s.len() && s[p].0 == f.0 {
            s.update(p, f)
        } else {
            s.insert(p, f)
        },
    decreases p,
{
    if p == 0 {
        if s.len() == 0 {
            assert(s.insert(0, f) =~= seq![f]);
        } else if s[0].0 == f.0 {
            assert(s.update(0, f) =~= seq![f] + s.drop_first());
        } else {
            assert(s.insert(0, f) =~= seq![f] + s);
        }
    } else {
        let t = s.drop_first();
        assert forall|j: int| 0 <= j < p - 1 implies t[j].0 != f.0 && !name_lt(f.0, #[trigger] t[j].0) by {
            assert(t[j] == s[j + 1]);
        }
        lemma_insert_sorted_at(t, f, p - 1);
        if p < s.len() && s[p].0 == f.0 {
            assert(s.update(p, f) =~= seq![s[0]] + t.update(p - 1, f));
        } else {
            assert(s.insert(p, f) =~= seq![s[0]] + t.insert(p - 1, f));
        }
    }
}

proof fn lemma_insert_sorted_members<V>(s: Seq<(Seq<char>, V)>, f: (Seq<char>, V))
    ensures
        forall|k: int| 0 <= k < insert_sorted(s, f).len() ==> #[trigger] insert_sorted(s, f)[k] == f
            || s.contains(insert_sorted(s, f)[k]),
    decreases s.len(),
{
    if s.len() > 0 {
        let t = s.drop_first();
        lemma_insert_sorted_members(t, f);
        let r = insert_sorted(s, f);
        assert forall|k: int| 0 <= k < r.len() implies #[trigger] r[k] == f || s.contains(r[k]) by {
            if s[0].0 == f.0 {
                if k > 0 {
                    assert(r[k] == s[k]);
                }
            } else if name_lt(f.0, s[0].0) {
                if k > 0 {
                    assert(r[k] == s[k - 1]);
                }
            } else {
                if k == 0 {
                    assert(r[0] == s[0]);
                } else {
                    let x = insert_sorted(t, f)[k - 1];
                    assert(r[k] == x);
                    if x != f {
                        let m = choose|m: int| 0 <= m < t.len() && t[m] == x;
                        assert(s[m + 1] == x);
                    }
                }
            }
        }
    }
}

proof fn lemma_insert_sorted_ascending<V>(s: Seq<(Seq<char>, V)>, f: (Seq<char>, V))
    requires
        names_ascending(s),
    ensures
        names_ascending(insert_sorted(s, f)),
    decreases s.len(),
{
    if s.len() > 0 {
        let t = s.drop_first();
        let r = insert_sorted(s, f);
        assert(names_ascending(t)) by {
            assert forall|i: int, j: int| 0 <= i < j < t.len() implies name_lt(
                #[trigger] t[i].0,
                #[trigger] t[j].0,
            ) by {
                assert(t[i] == s[i + 1] && t[j] == s[j + 1]);
            }
        }
        if s[0].0 == f.0 {
            assert forall|i: int, j: int| 0 <= i < j < r.len() implies name_lt(
                #[trigger] r[i].0,
                #[trigger] r[j].0,
            ) by {
                assert(r[j] == s[j]);
                if i > 0 {
                    assert(r[i] == s[i]);
                }
            }
        } else if name_lt(f.0, s[0].0) {
            assert forall|i: int, j: int| 0 <= i < j < r.len() implies name_lt(
                #[trigger] r[i].0,
                #[trigger] r[j].0,
            ) by {
                assert(r[j] == s[j - 1]);
                if i > 0 {
                    assert(r[i] == s[i - 1]);
                } else if j > 1 {
                    lemma_name_lt_transitive(f.0, s[0].0, s[j - 1].0);
                }
            }
        } else {
            lemma_name_lt_total(f.0, s[0].0);
            lemma_insert_sorted_ascending(t, f);
            lemma_insert_sorted_members(t, f);
            let u = insert_sorted(t, f);
            assert forall|i: int, j: int| 0 <= i < j < r.len() implies name_lt(
                #[trigger] r[i].0,
                #[trigger] r[j].0,
            ) by {
                assert(r[j] == u[j - 1]);
                if i > 0 {
                    assert(r[i] == u[i - 1]);
                } else {
                    assert(r[0] == s[0]);
                    if u[j - 1] != f {
                        let m = choose|m: int| 0 <= m < t.len() && t[m] == u[j - 1];
                        assert(s[m + 1] == u[j - 1]);
                    }
                }
            }
        }
    }
}

/// Whatever the entries and their order, the files of the payload come sorted by name,
/// each name once.
pub proof fn lemma_payload_ascending<V>(entries: Seq<(Seq<char>, V)>)
    ensures
        names_ascending(payload_of(entries)),
    decreases entries.len(),
{
    if entries.len() > 0 {
        lemma_payload_ascending(entries.drop_last());
        lemma_insert_sorted_ascending(payload_of(entries.drop_last()), entries.last());
    }
}

/// No two files share a name.
pub open spec fn names_unique<V>(s: Seq<(Seq<char>, V)>) -> bool {
    forall|i: int, j: int| 0 <= i < j < s.len() ==> #[trigger] s[i].0 != #[trigger] s[j].0
}

proof fn lemma_insert_sorted_new_name<V>(s: Seq<(Seq<char>, V)>, f: (Seq<char>, V))
    requires
        forall|k: int| 0 <= k < s.len() ==> (#[trigger] s[k]).0 != f.0,
    ensures
        forall|x: (Seq<char>, V)| #[trigger] insert_sorted(s, f).contains(x) <==> x == f || s.contains(x),
    decreases s.len(),
{
    if s.len() > 0 {
        let t = s.drop_first();
        let r = insert_sorted(s, f);
        assert forall|k: int| 0 <= k < t.len() implies (#[trigger] t[k]).0 != f.0 by {
            assert(t[k] == s[k + 1]);
        }
        lemma_insert_sorted_new_name(t, f);
        assert(s[0].0 != f.0);
        if name_lt(f.0, s[0].0) {
            assert(r =~= seq![f] + s);
            assert forall|x: (Seq<char>, V)| r.contains(x) <==> x == f || s.contains(x) by {
                if x == f {
                    assert(r[0] == x);
                }
                if s.contains(x) {
                    let k = choose|k: int| 0 <= k < s.len() && s[k] == x;
                    assert(r[k + 1] == x);
                }
                if r.contains(x) && x != f {
                    let k = choose|k: int| 0 <= k < r.len() && r[k] == x;
                    assert(k > 0);
                    assert(s[k - 1] == x);
                }
            }
        } else {
            let u = insert_sorted(t, f);
            assert(r =~= seq![s[0]] + u);
            assert forall|x: (Seq<char>, V)| r.contains(x) <==> x == f || s.contains(x) by {
                if s.contains(x) && x != s[0] {
                    let k = choose|k: int| 0 <= k < s.len() && s[k] == x;
                    assert(t[k - 1] == x);
                    assert(u.contains(x));
                    let m = choose|m: int| 0 <= m < u.len() && u[m] == x;
                    assert(r[m + 1] == x);
                }
                if x == s[0] {
                    assert(r[0] == x);
                }
                if x == f {
                    assert(u.contains(x));
                    let m = choose|m: int| 0 <= m < u.len() && u[m] == x;
                    assert(r[m + 1] == x);
                }
                if r.contains(x) && x != f && x != s[0] {
                    let k = choose|k: int| 0 <= k < r.len() && r[k] == x;
                    assert(u[k - 1] == x);
                    assert(u.contains(x));
                    assert(t.contains(x));
                    let m = choose|m: int| 0 <= m < t.len() && t[m] == x;
                    assert(s[m + 1] == x);
                }
            }
        }
    } else {
        let r = insert_sorted(s, f);
        assert(r =~= seq![f]);
        assert forall|x: (Seq<char>, V)| r.contains(x) <==> x == f || s.contains(x) by {
            if x == f {
                assert(r[0] == x);
            }
        }
    }
}

/// Where no two entries share a name, the payload holds exactly the entries: none is
/// dropped and none is added.
pub proof fn lemma_payload_members<V>(entries: Seq<(Seq<char>, V)>)
    requires
        names_unique(entries),
    ensures
        forall|x: (Seq<char>, V)| #[trigger] payload_of(entries).contains(x) <==> entries.contains(x),
    decreases entries.len(),
{
    if entries.len() > 0 {
        let init = entries.drop_last();
        let f = entries.last();
        let p = payload_of(init);
        assert(names_unique(init)) by {
            assert forall|i: int, j: int| 0 <= i < j < init.len() implies #[trigger] init[i].0
                != #[trigger] init[j].0 by {
                assert(init[i] == entries[i] && init[j] == entries[j]);
            }
        }
        lemma_payload_members(init);
        assert forall|k: int| 0 <= k < p.len() implies (#[trigger] p[k]).0 != f.0 by {
            assert(p.contains(p[k]));
            assert(init.contains(p[k]));
            let m = choose|m: int| 0 <= m < init.len() && init[m] == p[k];
            assert(entries[m] == p[k]);
        }
        lemma_insert_sorted_new_name(p, f);
        assert forall|x: (Seq<char>, V)| #[trigger] payload_of(entries).contains(x) <==> entries.contains(x) by {
            if init.contains(x) {
                let m = choose|m: int| 0 <= m < init.len() && init[m] == x;
                assert(entries[m] == x);
            }
            if entries.contains(x) && x != f {
                let m = choose|m: int| 0 <= m < entries.len() && entries[m] == x;
                assert(init[m] == x);
            }
            assert(entries[entries.len() - 1] == f);
        }
    }
}

proof fn lemma_ascending_same_members<V>(p: Seq<(Seq<char>, V)>, q: Seq<(Seq<char>, V)>)
    requires
        names_ascending(p),
        names_ascending(q),
        forall|x: (Seq<char>, V)| p.contains(x) <==> q.contains(x),
    ensures
        p == q,
    decreases p.len(),
{
    if p.len() == 0 {
        if q.len() > 0 {
            assert(q.contains(q[0]));
        }
        assert(p =~= q);
    } else {
        assert(p.contains(p[0]));
        let j = choose|j: int| 0 <= j < q.len() && q[j] == p[0];
        assert(q.contains(q[0]));
        let i = choose|i: int| 0 <= i < p.len() && p[i] == q[0];
        if j > 0 {
            lemma_name_lt_irreflexive(q[0].0);
            if i > 0 {
                lemma_name_lt_asymmetric(q[0].0, p[0].0);
            }
        }
        assert(p[0] == q[0]);
        let pt = p.drop_first();
        let qt = q.drop_first();
        assert(names_ascending(pt)) by {
            assert forall|a: int, b: int| 0 <= a < b < pt.len() implies name_lt(
                #[trigger] pt[a].0,
                #[trigger] pt[b].0,
            ) by {
                assert(pt[a] == p[a + 1] && pt[b] == p[b + 1]);
            }
        }
        assert(names_ascending(qt)) by {
            assert forall|a: int, b: int| 0 <= a < b < qt.len() implies name_lt(
                #[trigger] qt[a].0,
                #[trigger] qt[b].0,
            ) by {
                assert(qt[a] == q[a + 1] && qt[b] == q[b + 1]);
            }
        }
        assert forall|x: (Seq<char>, V)| pt.contains(x) <==> qt.contains(x) by {
            lemma_name_lt_irreflexive(p[0].0);
            if pt.contains(x) {
                let k = choose|k: int| 0 <= k < pt.len() && pt[k] == x;
                assert(p[k + 1] == x);
                assert(p.contains(x));
                assert(x != p[0]);
                let m = choose|m: int| 0 <= m < q.len() && q[m] == x;
                assert(m != 0);
                assert(qt[m - 1] == x);
            }
            if qt.contains(x) {
                let k = choose|k: int| 0 <= k < qt.len() && qt[k] == x;
                assert(q[k + 1] == x);
                assert(q.contains(x));
                assert(x != q[0]);
                let m = choose|m: int| 0 <= m < p.len() && p[m] == x;
                assert(m != 0);
                assert(pt[m - 1] == x);
            }
        }
        lemma_ascending_same_members(pt, qt);
        assert(p =~= seq![p[0]] + pt);
        assert(q =~= seq![q[0]] + qt);
    }
}

/// Two lists of the same files, no two with one name, give the same payload, whatever
/// their order.
pub proof fn lemma_payload_order_free<V>(a: Seq<(Seq<char>, V)>, b: Seq<(Seq<char>, V)>)
    requires
        names_unique(a),
        names_unique(b),
        forall|x: (Seq<char>, V)| a.contains(x) <==> b.contains(x),
    ensures
        payload_of(a) == payload_of(b),
{
    lemma_payload_members(a);
    lemma_payload_members(b);
    lemma_payload_ascending(a);
    lemma_payload_ascending(b);
    lemma_ascending_same_members(payload_of(a), payload_of(b));
}

/// Each entry's key in the abstract, beside its value.
pub open spec fn keyed<T>(s: Seq<(String, T)>) -> Seq<(Seq<char>, T)> {
    s.map_values(|e: (String, T)| (e.0@, e.1))
}

/// The entries sorted by key, and for each key the last entry that carries it.
pub fn order_by_key<T>(entries: Vec<(String, T)>) -> (r: Vec<(String, T)>)
    ensures
        keyed(r@) == payload_of(keyed(entries@)),
{
    let ghost all = entries@;
    let mut rest = entries;
    let mut sorted: Vec<(String, T)> = Vec::new();
    let ghost mut taken: int = 0;
    proof {
        assert(all.take(0) =~= Seq::<(String, T)>::empty());
        assert(keyed(all.take(0)) =~= Seq::<(Seq<char>, T)>::empty());
        assert(rest@ =~= all.skip(0));
    }
    while rest.len() > 0
        invariant
            0 <= taken <= all.len(),
            rest@ == all.skip(taken),
            keyed(sorted@) == payload_of(keyed(all.take(taken))),
        decreases rest.len(),
    {
        let entry = rest.remove(0);
        proof {
            assert(entry == all[taken]);
            assert(rest@ =~= all.skip(taken + 1));
            let v = keyed(all.take(taken + 1));
            assert(v.drop_last() =~= keyed(all.take(taken)));
            assert(v.last() == (entry.0@, entry.1));
        }
        let ghost before = sorted@;
        let mut p: usize = 0;
        let mut same = false;
        while p < sorted.len()
            invariant_except_break
                !same,
            invariant
                sorted@ == before,
                p <= sorted.len(),
                forall|j: int| 0 <= j < p ==> keyed(sorted@)[j].0 != entry.0@ && !name_lt(
                    entry.0@,
                    #[trigger] keyed(sorted@)[j].0,
                ),
            ensures
                sorted@ == before,
                p <= sorted.len(),
                same ==> p < sorted.len() && keyed(sorted@)[p as int].0 == entry.0@,
                !same ==> p == sorted.len() || name_lt(entry.0@, keyed(sorted@)[p as int].0),
            decreases sorted.len() - p,
        {
            match compare_names(entry.0.as_str(), sorted[p].0.as_str()) {
                Ordering::Equal => {
                    same = true;
                    break;
                },
                Ordering::Less => {
                    break;
                },
                Ordering::Greater => {},
            }
            proof {
                lemma_name_lt_asymmetric(entry.0@, sorted[p as int].0@);
            }
            p = p + 1;
        }
        let ghost f: (Seq<char>, T) = (entry.0@, entry.1);
        proof {
            lemma_insert_sorted_at(keyed(before), f, p as int);
            lemma_name_lt_irreflexive(f.0);
        }
        if same {
            sorted.set(p, entry);
            proof {
                assert(keyed(sorted@) =~= keyed(before).update(p as int, f));
            }
        } else {
            sorted.insert(p, entry);
            proof {
                assert(keyed(sorted@) =~= keyed(before).insert(p as int, f));
            }
        }
        proof {
            let v = keyed(all.take(taken + 1));
            assert(v.len() > 0);
            assert(payload_of(v) == insert_sorted(payload_of(v.drop_last()), v.last()));
            assert(v.drop_last() =~= keyed(all.take(taken)));
            taken = taken + 1;
        }
    }
    proof {
        assert(all.take(taken) =~= all);
    }
    sorted
}

/// The key and text of each entry.
pub open spec fn contents(s: Seq<(Seq<char>, File)>) -> Seq<FileView> {
    s.map_values(|e: (Seq<char>, File)| (e.0, e.1.content@))
}

proof fn lemma_insert_contents(s: Seq<(Seq<char>, File)>, f: (Seq<char>, File))
    ensures
        insert_sorted(contents(s), (f.0, f.1.content@)) == contents(insert_sorted(s, f)),
    decreases s.len(),
{
    let c = contents(s);
    let g: FileView = (f.0, f.1.content@);
    if s.len() == 0 {
        assert(contents(insert_sorted(s, f)) =~= seq![g]);
    } else {
        assert(c[0].0 == s[0].0);
        assert(c.drop_first() =~= contents(s.drop_first()));
        lemma_insert_contents(s.drop_first(), f);
        if s[0].0 == f.0 {
            assert(contents(insert_sorted(s, f)) =~= seq![g] + c.drop_first());
        } else if name_lt(f.0, s[0].0) {
            assert(contents(insert_sorted(s, f)) =~= seq![g] + c);
        } else {
            assert(contents(insert_sorted(s, f)) =~= seq![c[0]] + insert_sorted(c.drop_first(), g));
        }
    }
}

proof fn lemma_payload_contents(e: Seq<(Seq<char>, File)>)
    ensures
        payload_of(contents(e)) == contents(payload_of(e)),
    decreases e.len(),
{
    if e.len() == 0 {
        assert(contents(e) =~= Seq::<FileView>::empty());
        assert(contents(Seq::<(Seq<char>, File)>::empty()) =~= Seq::<FileView>::empty());
    } else {
        assert(contents(e).drop_last() =~= contents(e.drop_last()));
        lemma_payload_contents(e.drop_last());
        lemma_insert_contents(payload_of(e.drop_last()), e.last());
    }
}

/// Gist object.
#[derive(Debug, PartialEq)]
pub struct Gist {
    /// Describes the Gist
    description: Option<String>,
    /// Files of the Gist, sorted by name, each name once
    files: Vec<(String, File)>,
}

impl Gist {
    /// Every Gist keeps its files sorted by name, each name once.
    #[verifier::type_invariant]
    spec fn well_formed(self) -> bool {
        names_ascending(files_view(self.files@))
    }

    /// The description, in the abstract.
    pub closed spec fn spec_description(self) -> Option<String> {
        self.description
    }

    /// The files, in the abstract and in the order they are sent.
    pub closed spec fn spec_files(self) -> Seq<FileView> {
        files_view(self.files@)
    }

    /// Describes the Gist.
    pub fn description(&self) -> (r: &Option<String>)
        ensures
            *r == self.spec_description(),
    {
        &self.description
    }

    /// The files, sorted by name, each name once.
    pub fn files(&self) -> (r: &Vec<(String, File)>)
        ensures
            files_view(r@) == self.spec_files(),
            names_ascending(self.spec_files()),
    {
        proof {
            use_type_invariant(self);
        }
        &self.files
    }

    /// A Gist of the given files: sorted by name, and where two carry the same name,
    /// the later one is kept.
    pub fn new(description: Option<String>, entries: Vec<(String, File)>) -> (r: Gist)
        ensures
            r.spec_description() == description,
            r.spec_files() == payload_of(files_view(entries@)),
            names_ascending(r.spec_files()),
    {
        let ghost all = entries@;
        let files = order_by_key(entries);
        proof {
            assert(files_view(all) =~= contents(keyed(all)));
            assert(files_view(files@) =~= contents(keyed(files@)));
            lemma_payload_contents(keyed(all));
            lemma_payload_ascending(files_view(all));
        }
        Gist { description, files }
    }
}

} // verus!
