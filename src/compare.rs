//! Joining the local inventory against the package index's answers.
use vstd::prelude::*;
use crate::inventory::{
    copy_package, find_name, lemma_latest_unique, latest, make_map, unique_names, views, Package,
};

verus! {

/// What the comparison says of one installed package.
pub enum Report {
    /// The index holds another version than the one installed.
    Update { name: String, local: String, remote: String },
    /// The index does not hold the package.
    Missing { name: String },
}

/// A report over plain sequences of characters.
pub enum ReportView {
    Update { name: Seq<char>, local: Seq<char>, remote: Seq<char> },
    Missing { name: Seq<char> },
}

impl ReportView {
    pub open spec fn name(self) -> Seq<char> {
        match self {
            ReportView::Update { name, .. } => name,
            ReportView::Missing { name } => name,
        }
    }
}

impl View for Report {
    type V = ReportView;

    open spec fn view(&self) -> ReportView {
        match self {
            Report::Update { name, local, remote } => ReportView::Update {
                name: name@,
                local: local@,
                remote: remote@,
            },
            Report::Missing { name } => ReportView::Missing { name: name@ },
        }
    }
}

/// The line that shows a report.
pub open spec fn report_line(r: ReportView) -> Seq<char> {
    match r {
        ReportView::Update { name, local, remote } => name + " "@ + local + " -> "@ + remote,
        ReportView::Missing { name } => "package "@ + name + " was not found in the AUR"@,
    }
}

impl Report {
    /// The line that shows this report: `<name> <local> -> <remote>` for an update.
    pub fn line(&self) -> (r: String)
        ensures
            r@ == report_line(self@),
    {
        match self {
            Report::Update { name, local, remote } => {
                let mut s = name.clone();
                s.append(" ");
                s.append(local.as_str());
                s.append(" -> ");
                s.append(remote.as_str());
                s
            },
            Report::Missing { name } => {
                let mut s = String::from_str("package ");
                s.append(name.as_str());
                s.append(" was not found in the AUR");
                s
            },
        }
    }

    /// Whether this report is the notice of a package that the index lacks.
    pub fn is_missing(&self) -> (r: bool)
        ensures
            r == (self@ is Missing),
    {
        match self {
            Report::Missing { .. } => true,
            _ => false,
        }
    }
}

/// The reports as views.
pub open spec fn report_views(s: Seq<Report>) -> Seq<ReportView> {
    s.map_values(|r: Report| r@)
}

/// The report owed for name `k`: none where it is not installed or the versions
/// agree, `Missing` where the index lacks it, `Update` where the versions differ.
pub open spec fn report_for(
    local: Seq<(Seq<char>, Seq<char>)>,
    remote: Seq<(Seq<char>, Seq<char>)>,
    k: Seq<char>,
) -> Option<ReportView> {
    match latest(local, k) {
        None => None,
        Some(l) => match latest(remote, k) {
            None => Some(ReportView::Missing { name: k }),
            Some(v) => if l == v {
                None
            } else {
                Some(ReportView::Update { name: k, local: l, remote: v })
            },
        },
    }
}

/// `out` holds, in some order, exactly the reports owed, one per name.
pub open spec fn reports_of(
    local: Seq<(Seq<char>, Seq<char>)>,
    remote: Seq<(Seq<char>, Seq<char>)>,
    out: Seq<ReportView>,
) -> bool {
    &&& forall|i: int|
        0 <= i < out.len() ==> report_for(local, remote, #[trigger] out[i].name()) == Some(out[i])
    &&& forall|i: int, j: int| 0 <= i < j < out.len() ==> out[i].name() != out[j].name()
    &&& forall|k: Seq<char>| #[trigger] report_for(local, remote, k) is Some ==> exists|i: int|
        0 <= i < out.len() && out[i].name() == k
}

/// Compares installed packages with the index's: each installed package gets an
/// `Update` where the index has another version, and `Missing` where it has none.
pub fn compare(local: Vec<Package>, remote: Vec<Package>) -> (r: Vec<Report>)
    ensures
        reports_of(views(local@), views(remote@), report_views(r@)),
{
    let ghost lv = views(local@);
    let ghost rv = views(remote@);
    let lm = make_map(local);
    let rm = make_map(remote);
    let ghost lmv = views(lm@);
    let ghost rmv = views(rm@);
    let mut r: Vec<Report> = Vec::new();
    let mut i: usize = 0;
    while i < lm.len()
        invariant
            i <= lm.len(),
            lmv == views(lm@),
            rmv == views(rm@),
            unique_names(lmv),
            unique_names(rmv),
            forall|k: Seq<char>| latest(lmv, k) == latest(lv, k),
            forall|k: Seq<char>| latest(rmv, k) == latest(rv, k),
            forall|m: int|
                0 <= m < r.len() ==> report_for(lv, rv, #[trigger] report_views(r@)[m].name())
                    == Some(report_views(r@)[m]),
            forall|m: int|
                0 <= m < r.len() ==> exists|q: int|
                    0 <= q < i && lmv[q].0 == #[trigger] report_views(r@)[m].name(),
            forall|m: int, n: int|
                0 <= m < n < r.len() ==> report_views(r@)[m].name() != report_views(r@)[n].name(),
            forall|q: int|
                0 <= q < i && #[trigger] report_for(lv, rv, lmv[q].0) is Some ==> exists|m: int|
                    0 <= m < r.len() && report_views(r@)[m].name() == lmv[q].0,
        decreases lm.len() - i,
    {
        let p = copy_package(&lm[i]);
        let ghost k = p@.0;
        proof {
            lemma_latest_unique(lmv, k);
            lemma_latest_unique(rmv, k);
            assert(lmv[i as int] == p@);
        }
        let ghost prev = report_views(r@);
        let ghost added: bool = false;
        match find_name(&rm, &p.name) {
            Some(j) => {
                assert(rmv[j as int] == rm@[j as int]@);
                if p.version != rm[j].version {
                    let name = p.name;
                    let local = p.version;
                    let remote = rm[j].version.clone();
                    r.push(Report::Update { name, local, remote });
                    proof { added = true; }
                }
            },
            None => {
                assert forall|m: int| 0 <= m < rmv.len() implies rmv[m].0 != k by {
                    assert(rmv[m] == rm@[m]@);
                }
                let name = p.name;
                r.push(Report::Missing { name });
                proof { added = true; }
            },
        }
        proof {
            if added {
                assert(report_views(r@) =~= prev.push(report_views(r@).last()));
                assert forall|m: int| 0 <= m < prev.len() implies prev[m].name() != k by {
                    let q = choose|q: int| 0 <= q < i && lmv[q].0 == prev[m].name();
                    assert(q != i);
                }
                assert forall|m: int| 0 <= m < r.len() implies exists|q: int|
                    0 <= q < i + 1 && lmv[q].0 == #[trigger] report_views(r@)[m].name() by {
                    if m < prev.len() {
                        assert(report_views(r@)[m] == prev[m]);
                    } else {
                        assert(lmv[i as int].0 == report_views(r@)[m].name());
                    }
                }
                assert forall|q: int|
                    0 <= q < i + 1 && #[trigger] report_for(lv, rv, lmv[q].0) is Some
                    implies exists|m: int|
                    0 <= m < r.len() && report_views(r@)[m].name() == lmv[q].0 by {
                    if q < i {
                        let m = choose|m: int| 0 <= m < prev.len() && prev[m].name() == lmv[q].0;
                        assert(report_views(r@)[m] == prev[m]);
                    } else {
                        assert(report_views(r@)[prev.len() as int].name() == lmv[q].0);
                    }
                }
            } else {
                assert(report_views(r@) == prev);
                assert(report_for(lv, rv, k) is None);
            }
        }
        i = i + 1;
    }
    proof {
        let out = report_views(r@);
        assert forall|k: Seq<char>| #[trigger] report_for(lv, rv, k) is Some implies exists|i: int|
            0 <= i < out.len() && out[i].name() == k by {
            lemma_latest_unique(lmv, k);
            let q = choose|q: int| 0 <= q < lmv.len() && lmv[q].0 == k;
            assert(report_for(lv, rv, lmv[q].0) is Some);
        }
    }
    r
}

/// Some entry has name `k`.
pub open spec fn has_name(s: Seq<(Seq<char>, Seq<char>)>, k: Seq<char>) -> bool {
    exists|i: int| 0 <= i < s.len() && s[i].0 == k
}

/// Some string is `k`.
pub open spec fn holds_str(s: Seq<String>, k: Seq<char>) -> bool {
    exists|i: int| 0 <= i < s.len() && s[i]@ == k
}

/// The names to ask the index about: each installed name once.
pub fn lookup_names(local: &Vec<Package>) -> (r: Vec<String>)
    ensures
        forall|i: int, j: int| 0 <= i < j < r.len() ==> r@[i]@ != r@[j]@,
        forall|k: Seq<char>| #[trigger] holds_str(r@, k) == has_name(views(local@), k),
{
    let mut all: Vec<Package> = Vec::new();
    let mut i: usize = 0;
    while i < local.len()
        invariant
            i <= local.len(),
            views(all@) == views(local@).take(i as int),
        decreases local.len() - i,
    {
        let ghost prev = views(all@);
        all.push(copy_package(&local[i]));
        assert(views(all@) =~= prev.push(local@[i as int]@));
        assert(views(all@) =~= views(local@).take(i + 1));
        i = i + 1;
    }
    assert(views(all@) =~= views(local@));
    let ghost lv = views(local@);
    let m = make_map(all);
    let ghost mv = views(m@);
    let mut r: Vec<String> = Vec::new();
    let mut j: usize = 0;
    while j < m.len()
        invariant
            j <= m.len(),
            mv == views(m@),
            r.len() == j,
            forall|q: int| 0 <= q < j ==> r@[q]@ == mv[q].0,
        decreases m.len() - j,
    {
        r.push(m[j].name.clone());
        j = j + 1;
    }
    assert forall|a: int, b: int| 0 <= a < b < r.len() implies r@[a]@ != r@[b]@ by {
        assert(mv[a].0 != mv[b].0);
    }
    assert forall|k: Seq<char>| #[trigger] holds_str(r@, k) == has_name(lv, k) by {
        lemma_latest_some(mv, k);
        lemma_latest_some(lv, k);
        if exists|i: int| 0 <= i < r.len() && r@[i]@ == k {
            let i = choose|i: int| 0 <= i < r.len() && r@[i]@ == k;
            assert(mv[i].0 == k);
        }
        if has_name(lv, k) {
            let i = choose|i: int| 0 <= i < mv.len() && mv[i].0 == k;
            assert(r@[i]@ == k);
        }
    }
    r
}

/// `latest` gives a version for exactly the names that some entry has.
pub proof fn lemma_latest_some(s: Seq<(Seq<char>, Seq<char>)>, k: Seq<char>)
    ensures
        latest(s, k) is Some <==> exists|i: int| 0 <= i < s.len() && s[i].0 == k,
    decreases s.len(),
{
    if s.len() > 0 {
        let t = s.drop_last();
        lemma_latest_some(t, k);
        if exists|i: int| 0 <= i < t.len() && t[i].0 == k {
            let i = choose|i: int| 0 <= i < t.len() && t[i].0 == k;
            assert(s[i] == t[i]);
        }
        if latest(s, k) is None {
            assert forall|i: int| 0 <= i < s.len() implies s[i].0 != k by {
                if i < t.len() {
                    assert(s[i] == t[i]);
                }
            }
        }
    }
}

/// An installed package that the index's answer does not hold gets exactly one
/// `Missing` notice among the reports.
pub proof fn missing_package_noticed_once(
    local: Seq<(Seq<char>, Seq<char>)>,
    remote: Seq<(Seq<char>, Seq<char>)>,
    out: Seq<ReportView>,
    k: Seq<char>,
)
    requires
        reports_of(local, remote, out),
        exists|i: int| 0 <= i < local.len() && local[i].0 == k,
        forall|j: int| 0 <= j < remote.len() ==> remote[j].0 != k,
    ensures
        exists|i: int| 0 <= i < out.len() && out[i] == (ReportView::Missing { name: k }),
        forall|i: int, j: int|
            0 <= i < out.len() && 0 <= j < out.len() && out[i] == (ReportView::Missing { name: k })
                && out[j] == (ReportView::Missing { name: k }) ==> i == j,
{
    lemma_latest_some(local, k);
    lemma_latest_some(remote, k);
    assert(report_for(local, remote, k) == Some(ReportView::Missing { name: k }));
    let i = choose|i: int| 0 <= i < out.len() && out[i].name() == k;
    assert(report_for(local, remote, out[i].name()) == Some(out[i]));
    assert forall|a: int, b: int|
        0 <= a < out.len() && 0 <= b < out.len() && out[a] == (ReportView::Missing { name: k })
            && out[b] == (ReportView::Missing { name: k }) implies a == b by {
        if a < b {
            assert(out[a].name() != out[b].name());
        } else if b < a {
            assert(out[b].name() != out[a].name());
        }
    }
}

/// An installed package whose version the index holds too gets no report; one
/// whose version differs gets exactly the update from the one to the other.
pub proof fn versions_decide_update(
    local: Seq<(Seq<char>, Seq<char>)>,
    remote: Seq<(Seq<char>, Seq<char>)>,
    out: Seq<ReportView>,
    k: Seq<char>,
)
    requires
        reports_of(local, remote, out),
        latest(local, k) is Some,
        latest(remote, k) is Some,
    ensures
        latest(local, k) == latest(remote, k) ==> forall|i: int|
            0 <= i < out.len() ==> out[i].name() != k,
        latest(local, k) != latest(remote, k) ==> exists|i: int|
            0 <= i < out.len() && out[i] == (ReportView::Update {
                name: k,
                local: latest(local, k)->0,
                remote: latest(remote, k)->0,
            }),
{
    if latest(local, k) == latest(remote, k) {
        assert forall|i: int| 0 <= i < out.len() implies out[i].name() != k by {
            assert(report_for(local, remote, out[i].name()) == Some(out[i]));
        }
    } else {
        assert(report_for(local, remote, k) is Some);
        let i = choose|i: int| 0 <= i < out.len() && out[i].name() == k;
        assert(report_for(local, remote, out[i].name()) == Some(out[i]));
    }
}

} // verus!
