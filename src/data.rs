//! The survey network: all stations, and the graph of legs between them.
use vstd::prelude::*;
use crate::graph::{add_node, empty_graph, graph_edges, graph_nodes, StationGraph};
use crate::point::Point;
use crate::station::{station_spec, Station};

verus! {

/// Whether `needle` occurs in `hay` as a run of consecutive characters.
pub open spec fn contains_spec(hay: Seq<char>, needle: Seq<char>) -> bool {
    exists|i: int|
        0 <= i <= hay.len() - needle.len() && #[trigger] hay.subrange(i, i + needle.len())
            == needle
}

/// Relies on `str::contains`: whether `pat` occurs in `s`.
#[verifier::external_body]
fn str_contains(s: &str, pat: &str) -> (r: bool)
    ensures
        r == contains_spec(s@, pat@),
{
    s.contains(pat)
}

/// No two stations of `s` share a label.
pub open spec fn labels_unique(s: Seq<Station>) -> bool {
    forall|i: int, j: int|
        0 <= i < s.len() && 0 <= j < s.len() && i != j ==> s[i].label@ != s[j].label@
}

/// Some station of `s` is labelled `label`.
pub open spec fn has_label(s: Seq<Station>, label: Seq<char>) -> bool {
    exists|i: int| 0 <= i < s.len() && #[trigger] s[i].label@ == label
}

/// The position of the station labelled `label`, where there is one.
pub open spec fn label_index(s: Seq<Station>, label: Seq<char>) -> int {
    choose|i: int| 0 <= i < s.len() && #[trigger] s[i].label@ == label
}

/// `i` is the first position in `s` of a station labelled `label`.
pub open spec fn first_with_label(s: Seq<Station>, label: Seq<char>, i: int) -> bool {
    &&& 0 <= i < s.len()
    &&& s[i].label@ == label
    &&& forall|j: int| 0 <= j < i ==> #[trigger] s[j].label@ != label
}

/// `i` is the first position in `s` of a station at `coords`.
pub open spec fn first_at_coords(s: Seq<Station>, coords: Point, i: int) -> bool {
    &&& 0 <= i < s.len()
    &&& s[i].coords == coords
    &&& forall|j: int| 0 <= j < i ==> #[trigger] s[j].coords != coords
}

/// Some station of `s` stands at `coords`.
pub open spec fn has_coords(s: Seq<Station>, coords: Point) -> bool {
    exists|i: int| 0 <= i < s.len() && #[trigger] s[i].coords == coords
}

/// The position at which `label` is found after an upsert into `s`: that of
/// the station already labelled so, or else the end of `s`.
pub open spec fn upsert_slot(s: Seq<Station>, label: Seq<char>) -> int {
    if has_label(s, label) {
        label_index(s, label)
    } else {
        s.len() as int
    }
}

/// `t` is `s` after an upsert of `label` at `coords`: the station labelled
/// `label` is moved to `coords`, or, where there is none, a fresh station is
/// appended.
pub open spec fn upserted(s: Seq<Station>, coords: Point, label: Seq<char>, t: Seq<Station>) -> bool {
    if has_label(s, label) {
        let i = label_index(s, label);
        t == s.update(i, Station { coords, ..s[i] })
    } else {
        &&& t.len() == s.len() + 1
        &&& forall|j: int| 0 <= j < s.len() ==> #[trigger] t[j] == s[j]
        &&& t[s.len() as int].label@ == label
        &&& t[s.len() as int] == station_spec(t[s.len() as int].label, coords, s.len() as usize)
    }
}

/// The number of stations among the first `n` of `s` whose label contains
/// `fragment`.
pub open spec fn count_containing(s: Seq<Station>, fragment: Seq<char>, n: int) -> nat
    decreases n,
{
    if n <= 0 {
        0
    } else {
        count_containing(s, fragment, n - 1) + if contains_spec(s[n - 1].label@, fragment) {
            1nat
        } else {
            0nat
        }
    }
}

/// A copy of `st`.
pub(crate) fn copy_station(st: &Station) -> (r: Station)
    ensures
        r == *st,
{
    Station {
        label: st.label.clone(),
        coords: st.coords,
        index: st.index,
        lrud: st.lrud,
        surface: st.surface,
        underground: st.underground,
        entrance: st.entrance,
        exported: st.exported,
        fixed: st.fixed,
        anonymous: st.anonymous,
        wall: st.wall,
    }
}

/// Holds the stations of a survey and the graph of connections between them.
pub struct SurveyData {
    /// The stations, in the order in which they were created.
    pub stations: Vec<Station>,
    /// One node per station, at the station's `index`.
    pub graph: StationGraph,
}

impl Default for SurveyData {
    /// An empty network with no stations and no connections.
    fn default() -> (r: Self)
        ensures
            r.wf(),
            r.stations@.len() == 0,
            graph_edges(r.graph).len() == 0,
    {
        Self::new()
    }
}

impl SurveyData {
    /// Every station has the graph node at its own position, labels are
    /// unique, and every edge joins two existing nodes.
    pub open spec fn wf(&self) -> bool {
        &&& self.stations@.len() == graph_nodes(self.graph).len()
        &&& forall|i: int|
            0 <= i < self.stations@.len() ==> #[trigger] self.stations@[i].index == i
        &&& labels_unique(self.stations@)
        &&& forall|e: int|
            0 <= e < graph_edges(self.graph).len() ==> {
                &&& (#[trigger] graph_edges(self.graph)[e]).0 < self.stations@.len()
                &&& graph_edges(self.graph)[e].1 < self.stations@.len()
            }
    }

    /// An empty network with no stations and no connections.
    pub fn new() -> (r: Self)
        ensures
            r.wf(),
            r.stations@.len() == 0,
            graph_edges(r.graph).len() == 0,
    {
        SurveyData { stations: Vec::new(), graph: empty_graph() }
    }

    /// The position of the first station labelled `label`.
    pub fn position_by_label(&self, label: &str) -> (r: Option<usize>)
        ensures
            match r {
                Some(i) => first_with_label(self.stations@, label@, i as int),
                None => !has_label(self.stations@, label@),
            },
    {
        let target = label.to_owned();
        let mut i: usize = 0;
        while i < self.stations.len()
            invariant
                i <= self.stations@.len(),
                target@ == label@,
                forall|j: int| 0 <= j < i ==> #[trigger] self.stations@[j].label@ != label@,
            decreases self.stations@.len() - i,
        {
            if self.stations[i].label == target {
                return Some(i);
            }
            i = i + 1;
        }
        None
    }

    /// The position of the first station at `coords`.
    pub fn position_by_coords(&self, coords: &Point) -> (r: Option<usize>)
        ensures
            match r {
                Some(i) => first_at_coords(self.stations@, *coords, i as int),
                None => !has_coords(self.stations@, *coords),
            },
    {
        let mut i: usize = 0;
        while i < self.stations.len()
            invariant
                i <= self.stations@.len(),
                forall|j: int| 0 <= j < i ==> #[trigger] self.stations@[j].coords != *coords,
            decreases self.stations@.len() - i,
        {
            if self.stations[i].coords == *coords {
                return Some(i);
            }
            i = i + 1;
        }
        None
    }

    /// The first station labelled `label`, if any.
    pub fn get_by_label(&self, label: &str) -> (r: Option<&Station>)
        ensures
            match r {
                Some(st) => exists|i: int|
                    first_with_label(self.stations@, label@, i) && *st == self.stations@[i],
                None => !has_label(self.stations@, label@),
            },
    {
        match self.position_by_label(label) {
            Some(i) => Some(&self.stations[i]),
            None => None,
        }
    }

    /// The first station at exactly `coords`, if any.
    pub fn get_by_coords(&self, coords: &Point) -> (r: Option<&Station>)
        ensures
            match r {
                Some(st) => exists|i: int|
                    first_at_coords(self.stations@, *coords, i) && *st == self.stations@[i],
                None => !has_coords(self.stations@, *coords),
            },
    {
        match self.position_by_coords(coords) {
            Some(i) => Some(&self.stations[i]),
            None => None,
        }
    }

    /// The first station whose graph node is `index`, if any.
    pub fn get_by_index(&self, index: usize) -> (r: Option<&Station>)
        ensures
            match r {
                Some(st) => exists|i: int|
                    {
                        &&& 0 <= i < self.stations@.len()
                        &&& self.stations@[i].index == index
                        &&& *st == self.stations@[i]
                        &&& forall|j: int| 0 <= j < i ==> #[trigger] self.stations@[j].index != index
                    },
                None => forall|j: int|
                    0 <= j < self.stations@.len() ==> #[trigger] self.stations@[j].index != index,
            },
    {
        let mut i: usize = 0;
        while i < self.stations.len()
            invariant
                i <= self.stations@.len(),
                forall|j: int| 0 <= j < i ==> #[trigger] self.stations@[j].index != index,
            decreases self.stations@.len() - i,
        {
            if self.stations[i].index == index {
                return Some(&self.stations[i]);
            }
            i = i + 1;
        }
        None
    }

    /// The station whose label contains `fragment`, where exactly one does;
    /// where several or none do, the first station labelled exactly
    /// `fragment`, if any.
    pub fn get_by_label_part(&self, fragment: &str) -> (r: Option<&Station>)
        ensures
            count_containing(self.stations@, fragment@, self.stations@.len() as int) == 1
                ==> exists|i: int|
                {
                    &&& 0 <= i < self.stations@.len()
                    &&& contains_spec(self.stations@[i].label@, fragment@)
                    &&& forall|j: int|
                        0 <= j < self.stations@.len() && j != i ==> !contains_spec(
                            #[trigger] self.stations@[j].label@,
                            fragment@,
                        )
                    &&& r == Some(&self.stations@[i])
                },
            count_containing(self.stations@, fragment@, self.stations@.len() as int) != 1
                ==> match r {
                Some(st) => exists|i: int|
                    first_with_label(self.stations@, fragment@, i) && *st == self.stations@[i],
                None => !has_label(self.stations@, fragment@),
            },
    {
        let mut count: usize = 0;
        let mut first: usize = 0;
        let mut i: usize = 0;
        while i < self.stations.len()
            invariant
                i <= self.stations@.len(),
                count == count_containing(self.stations@, fragment@, i as int),
                count <= i,
                count > 0 ==> first < i && contains_spec(self.stations@[first as int].label@, fragment@),
                count == 0 ==> forall|j: int|
                    0 <= j < i ==> !contains_spec(#[trigger] self.stations@[j].label@, fragment@),
                count == 1 ==> forall|j: int|
                    0 <= j < i && j != first ==> !contains_spec(
                        #[trigger] self.stations@[j].label@,
                        fragment@,
                    ),
            decreases self.stations@.len() - i,
        {
            if str_contains(self.stations[i].label.as_str(), fragment) {
                if count == 0 {
                    first = i;
                }
                count = count + 1;
            }
            i = i + 1;
        }
        if count == 1 {
            Some(&self.stations[first])
        } else {
            self.get_by_label(fragment)
        }
    }


    /// `candidate`, lengthened with `-` until no station bears it.
    pub fn fresh_label(&self, candidate: String) -> (r: String)
        ensures
            !has_label(self.stations@, r@),
            r@.len() >= candidate@.len(),
            r@.subrange(0, candidate@.len() as int) == candidate@,
    {
        let mut longest: usize = 0;
        let mut i: usize = 0;
        while i < self.stations.len()
            invariant
                i <= self.stations@.len(),
                forall|j: int| 0 <= j < i ==> (#[trigger] self.stations@[j]).label@.len() <= longest,
            decreases self.stations@.len() - i,
        {
            let n = self.stations[i].label.as_str().unicode_len();
            if n > longest {
                longest = n;
            }
            i = i + 1;
        }
        let mut label = candidate;
        let mut taken = self.position_by_label(label.as_str());
        while taken.is_some()
            invariant
                forall|j: int|
                    0 <= j < self.stations@.len() ==> (#[trigger] self.stations@[j]).label@.len()
                        <= longest,
                label@.len() >= candidate@.len(),
                label@.subrange(0, candidate@.len() as int) == candidate@,
                match taken {
                    Some(j) => first_with_label(self.stations@, label@, j as int),
                    None => !has_label(self.stations@, label@),
                },
            decreases longest + 1 - label@.len(),
        {
            proof {
                reveal_strlit("-");
                if let Some(j) = taken {
                    assert(self.stations@[j as int].label@.len() <= longest);
                }
            }
            let ghost before = label@;
            label.append("-");
            assert(label@.subrange(0, candidate@.len() as int) =~= before.subrange(0, candidate@.len() as int));
            taken = self.position_by_label(label.as_str());
        }
        label
    }
    /// Move the station labelled `label` to `coords`, or, where there is none,
    /// create one there with a graph node of its own. Returns the station's
    /// position in `stations`, which is also its graph node's index.
    pub fn add_or_update(&mut self, coords: Point, label: &str) -> (r: usize)
        requires
            old(self).wf(),
        ensures
            final(self).wf(),
            upserted(old(self).stations@, coords, label@, final(self).stations@),
            r == upsert_slot(old(self).stations@, label@),
            graph_nodes(final(self).graph) == if has_label(old(self).stations@, label@) {
                graph_nodes(old(self).graph)
            } else {
                graph_nodes(old(self).graph).push(label@)
            },
            graph_edges(final(self).graph) == graph_edges(old(self).graph),
    {
        match self.position_by_label(label) {
            Some(i) => {
                let mut st = copy_station(&self.stations[i]);
                st.coords = coords;
                self.stations.set(i, st);
                i
            },
            None => {
                let index = add_node(&mut self.graph, label.to_owned());
                let st = Station::new(label.to_owned(), coords, index);
                self.stations.push(st);
                index
            },
        }
    }
}

/// Upserting one label twice, at `c1` and then at `c2`, leaves exactly one
/// station with that label, and it stands at `c2`; the second upsert adds no
/// station.
pub proof fn lemma_upsert_twice(
    s: Seq<Station>,
    label: Seq<char>,
    c1: Point,
    t1: Seq<Station>,
    c2: Point,
    t2: Seq<Station>,
)
    requires
        labels_unique(s),
        upserted(s, c1, label, t1),
        upserted(t1, c2, label, t2),
    ensures
        t2.len() == t1.len(),
        exists|i: int|
            {
                &&& 0 <= i < t2.len()
                &&& t2[i].label@ == label
                &&& t2[i].coords == c2
                &&& forall|j: int| 0 <= j < t2.len() && j != i ==> #[trigger] t2[j].label@ != label
            },
{
    let k = upsert_slot(s, label);
    if has_label(s, label) {
        assert(t1[k].label@ == label);
    } else {
        assert(t1[s.len() as int].label@ == label);
    }
    assert(has_label(t1, label));
    let i = label_index(t1, label);
    assert(forall|j: int| 0 <= j < t1.len() && j != i ==> #[trigger] t1[j].label@ != label) by {
        assert forall|j: int| 0 <= j < t1.len() && j != i implies #[trigger] t1[j].label@ != label by {
            if has_label(s, label) {
                assert(t1[j].label@ == s[j].label@);
                assert(t1[i].label@ == s[i].label@);
            } else {
                if j < s.len() && i < s.len() {
                    assert(t1[j] == s[j]);
                    assert(t1[i] == s[i]);
                } else if j < s.len() {
                    assert(t1[j] == s[j]);
                }
            }
        }
    }
    assert(t2[i].label@ == label);
    assert(forall|j: int| 0 <= j < t2.len() && j != i ==> t2[j] == t1[j]);
}

/// In a well-formed network no two stations share a label, and there are as
/// many stations as graph nodes.
pub proof fn lemma_one_station_per_label(d: &SurveyData)
    requires
        d.wf(),
    ensures
        d.stations@.len() == graph_nodes(d.graph).len(),
        forall|i: int, j: int|
            0 <= i < d.stations@.len() && 0 <= j < d.stations@.len() && i != j
                ==> d.stations@[i].label@ != d.stations@[j].label@,
{
}

} // verus!
