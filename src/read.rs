//! Interpretation of a stream of decoded survey records into a network.
use vstd::prelude::*;
use crate::data::{
    copy_station, first_at_coords, first_with_label, has_coords, has_label, label_index,
    labels_unique, upsert_slot, upserted, SurveyData,
};
use crate::graph::{add_edge, graph_edges, graph_nodes};
use crate::point::{distance_squared_spec, Point};
use crate::station::{flagged_spec, has_flag, lrud_spec, Station, FLAG_ANONYMOUS, LRUD};

verus! {

/// Why a load failed. No partial network is handed back with any of them.
#[derive(Debug, Clone, Copy, PartialEq, Eq, Structural)]
pub enum LoadError {
    /// The survey could not be opened at all.
    OpenFailure,
    /// The decoder met bad data in the stream.
    MalformedStream,
    /// A record of a kind outside the known set.
    UnknownRecordKind,
    /// A cross-section's label, or a leg's end, matches no station.
    UnresolvedReference,
}

/// One decoded item of a survey stream.
#[derive(Debug)]
pub enum Record {
    /// The survey could not be opened.
    OpenError,
    /// The end of the data.
    EndOfData,
    /// The decoder met data it could not read.
    BadData,
    /// Move to a point without drawing a leg.
    Move(Point),
    /// A leg from the current position to a point.
    Line(Point),
    /// A marker of the format, of no meaning here.
    Cross,
    /// Names the station at `coords`, with its flags.
    Label { coords: Point, label: String, flags: u32 },
    /// Passage dimensions at a station. Where `flags` holds the anonymous bit,
    /// the station is the one of the previous cross-section and `label` is
    /// not read.
    CrossSection { left: i32, right: i32, up: i32, down: i32, flags: u32, label: String },
    /// The end of a run of cross-sections.
    CrossSectionEnd,
    /// Statistics of the survey, of no meaning here.
    ErrorInfo,
    /// An item of a kind the decoder does not know.
    Unknown(i32),
}

/// The label that a cross-section applies to, given the label of the
/// previous one.
pub open spec fn cross_section_label(last: Seq<char>, flags: u32, label: Seq<char>) -> Seq<char> {
    if has_flag(flags, FLAG_ANONYMOUS) {
        last
    } else {
        label
    }
}

/// `s` is `s0` after a label record naming `label` at `coords` with `flags`:
/// the upsert, then the flags switched on at the station, whose label is
/// replaced by one that no station held, where the anonymous bit is set.
pub open spec fn labelled(s0: Seq<Station>, coords: Point, label: Seq<char>, flags: u32, s: Seq<Station>) -> bool {
    let k = upsert_slot(s0, label);
    exists|t: Seq<Station>|
        {
            &&& #[trigger] upserted(s0, coords, label, t)
            &&& s.len() == t.len()
            &&& forall|j: int| 0 <= j < t.len() && j != k ==> #[trigger] s[j] == t[j]
            &&& s[k] == (Station { label: s[k].label, ..flagged_spec(t[k], flags) })
            &&& if has_flag(flags, FLAG_ANONYMOUS) {
                !has_label(t, s[k].label@)
            } else {
                s[k].label == t[k].label
            }
        }
}

/// The edge that the leg `c` gives in a network of stations `s`: between the
/// first stations at either end, weighted by the leg's squared length.
pub open spec fn leg_edge(s: Seq<Station>, c: (Point, Point), e: (nat, nat, u128)) -> bool {
    &&& first_at_coords(s, c.0, e.0 as int)
    &&& first_at_coords(s, c.1, e.1 as int)
    &&& e.2 as int == distance_squared_spec(c.0, c.1)
}

/// The record at `i` is read: no end of data comes before it.
pub open spec fn read_at(records: Seq<Record>, i: int) -> bool {
    &&& 0 <= i < records.len()
    &&& forall|j: int| 0 <= j < i ==> !(#[trigger] records[j] is EndOfData)
}

/// The stream holds bad data before its end.
pub open spec fn reads_bad_data(records: Seq<Record>) -> bool {
    exists|i: int| #[trigger] read_at(records, i) && records[i] is BadData
}

/// The stream reports that the survey could not be opened, before its end.
pub open spec fn reads_open_error(records: Seq<Record>) -> bool {
    exists|i: int| #[trigger] read_at(records, i) && records[i] is OpenError
}

/// The stream holds a record of an unknown kind before its end.
pub open spec fn reads_unknown(records: Seq<Record>) -> bool {
    exists|i: int| #[trigger] read_at(records, i) && records[i] is Unknown
}

/// Relies on `uuid::Uuid::new_v4` and its `Display` form: a random identifier
/// drawn from the system's generator, which panics if that generator fails.
/// Nothing is promised of the text; the caller makes it unique.
#[verifier::external_body]
fn random_label() -> (r: String) {
    uuid::Uuid::new_v4().to_string()
}

proof fn lemma_first_is_only(s: Seq<Station>, label: Seq<char>, i: int)
    requires
        labels_unique(s),
        first_with_label(s, label, i),
    ensures
        has_label(s, label),
        label_index(s, label) == i,
{
    assert(s[i].label@ == label);
}

/// A label record with the anonymous bit set leaves its station with a label
/// other than the one that the record carried.
pub proof fn lemma_anonymous_relabel(
    s0: Seq<Station>,
    coords: Point,
    label: Seq<char>,
    flags: u32,
    s: Seq<Station>,
)
    requires
        labelled(s0, coords, label, flags, s),
        has_flag(flags, FLAG_ANONYMOUS),
    ensures
        0 <= upsert_slot(s0, label) < s.len(),
        s[upsert_slot(s0, label)].label@ != label,
{
    let k = upsert_slot(s0, label);
    let t = choose|t: Seq<Station>|
        {
            &&& #[trigger] upserted(s0, coords, label, t)
            &&& s.len() == t.len()
            &&& forall|j: int| 0 <= j < t.len() && j != k ==> #[trigger] s[j] == t[j]
            &&& s[k] == (Station { label: s[k].label, ..flagged_spec(t[k], flags) })
            &&& !has_label(t, s[k].label@)
        };
    if has_label(s0, label) {
        assert(s0[k].label@ == label);
        assert(t[k].label@ == label);
    } else {
        assert(t[k].label@ == label);
    }
}

/// Of two consecutive cross-sections, a second with the anonymous bit set
/// applies to the same label, and so to the same station, as the first:
/// the first one's update of the passage dimensions leaves the labels as
/// they were.
pub proof fn lemma_cross_section_carry_over(
    s0: Seq<Station>,
    last: Seq<char>,
    flags1: u32,
    label1: Seq<char>,
    lrud1: LRUD,
    flags2: u32,
    label2: Seq<char>,
)
    requires
        labels_unique(s0),
        has_label(s0, cross_section_label(last, flags1, label1)),
        has_flag(flags2, FLAG_ANONYMOUS),
    ensures
        ({
            let t1 = cross_section_label(last, flags1, label1);
            let i = label_index(s0, t1);
            let s1 = s0.update(i, Station { lrud: lrud1, ..s0[i] });
            &&& cross_section_label(t1, flags2, label2) == t1
            &&& has_label(s1, t1)
            &&& label_index(s1, t1) == i
        }),
{
    let t1 = cross_section_label(last, flags1, label1);
    let i = label_index(s0, t1);
    let s1 = s0.update(i, Station { lrud: lrud1, ..s0[i] });
    assert(s1[i].label@ == t1);
    let k = label_index(s1, t1);
    assert(s0[k].label@ == s1[k].label@);
}

/// The state of a load in progress.
pub struct Loader {
    /// The network built so far.
    pub data: SurveyData,
    /// The end of the last move or leg.
    pub last_position: Point,
    /// The label of the last cross-section that named one.
    pub last_label: String,
    /// The legs seen so far, as pairs of end points, in order.
    pub connections: Vec<(Point, Point)>,
}

/// `post` and `r` are what one step of a load from `pre` over `record` may
/// give: the record's effect on the network, the current position, the
/// carried label and the legs.
pub open spec fn stepped(pre: Loader, record: Record, post: Loader, r: Result<bool, LoadError>) -> bool {
    match record {
        Record::OpenError => r == Err::<bool, LoadError>(LoadError::OpenFailure),
        Record::BadData => r == Err::<bool, LoadError>(LoadError::MalformedStream),
        Record::Unknown(_) => r == Err::<bool, LoadError>(LoadError::UnknownRecordKind),
        Record::EndOfData => r == Ok::<bool, LoadError>(true) && post == pre,
        Record::Cross | Record::CrossSectionEnd | Record::ErrorInfo => {
            r == Ok::<bool, LoadError>(false) && post == pre
        },
        Record::Move(p) => {
            &&& r == Ok::<bool, LoadError>(false)
            &&& post.last_position == p
            &&& post.data == pre.data
            &&& post.last_label == pre.last_label
            &&& post.connections == pre.connections
        },
        Record::Line(p) => {
            &&& r == Ok::<bool, LoadError>(false)
            &&& post.last_position == p
            &&& post.connections@ == pre.connections@.push((pre.last_position, p))
            &&& post.data == pre.data
            &&& post.last_label == pre.last_label
        },
        Record::Label { coords, label, flags } => {
            &&& r == Ok::<bool, LoadError>(false)
            &&& labelled(pre.data.stations@, coords, label@, flags, post.data.stations@)
            &&& graph_nodes(post.data.graph) == if has_label(pre.data.stations@, label@) {
                graph_nodes(pre.data.graph)
            } else {
                graph_nodes(pre.data.graph).push(label@)
            }
            &&& graph_edges(post.data.graph) == graph_edges(pre.data.graph)
            &&& post.last_position == pre.last_position
            &&& post.last_label == pre.last_label
            &&& post.connections == pre.connections
        },
        Record::CrossSection { left, right, up, down, flags, label } => {
            let target = cross_section_label(pre.last_label@, flags, label@);
            let s0 = pre.data.stations@;
            &&& post.last_label@ == target
            &&& if has_label(s0, target) {
                let i = label_index(s0, target);
                &&& r == Ok::<bool, LoadError>(false)
                &&& post.data.stations@ == s0.update(
                    i,
                    Station { lrud: lrud_spec(left, right, up, down), ..s0[i] },
                )
                &&& post.data.graph == pre.data.graph
                &&& post.last_position == pre.last_position
                &&& post.connections == pre.connections
            } else {
                r == Err::<bool, LoadError>(LoadError::UnresolvedReference)
            }
        },
    }
}

/// `r` is what finishing a load in state `pre` gives: each leg turned into an
/// edge between the first stations at its two ends, weighted by its squared
/// length, in the order in which the legs were read; or an unresolved
/// reference where an end matches no station.
pub open spec fn finished(pre: Loader, r: Result<SurveyData, LoadError>) -> bool {
    &&& (r is Ok <==> forall|c: int|
        0 <= c < pre.connections@.len() ==> has_coords(
            pre.data.stations@,
            (#[trigger] pre.connections@[c]).0,
        ) && has_coords(pre.data.stations@, pre.connections@[c].1))
    &&& r matches Err(e) ==> e == LoadError::UnresolvedReference
    &&& r matches Ok(d) ==> {
        let n = graph_edges(pre.data.graph).len();
        &&& d.wf()
        &&& d.stations@ == pre.data.stations@
        &&& graph_nodes(d.graph) == graph_nodes(pre.data.graph)
        &&& graph_edges(d.graph).len() == n + pre.connections@.len()
        &&& graph_edges(d.graph).subrange(0, n as int) == graph_edges(pre.data.graph)
        &&& forall|c: int|
            0 <= c < pre.connections@.len() ==> leg_edge(
                pre.data.stations@,
                #[trigger] pre.connections@[c],
                graph_edges(d.graph)[n + c],
            )
    }
}

/// A load that has read nothing yet: no stations, no edges, the position at
/// (-1, -1, -1), no carried label and no legs.
pub open spec fn initial(l: Loader) -> bool {
    &&& l.data.wf()
    &&& l.data.stations@.len() == 0
    &&& graph_edges(l.data.graph).len() == 0
    &&& l.last_position == (Point { x: -1i32, y: -1i32, z: -1i32 })
    &&& l.last_label@.len() == 0
    &&& l.connections@.len() == 0
}

/// `trace` is a run of a load from its start over the first
/// `trace.len() - 1` records, each step of which went on.
pub open spec fn ran(records: Seq<Record>, trace: Seq<Loader>) -> bool {
    &&& 1 <= trace.len() <= records.len() + 1
    &&& initial(trace[0])
    &&& forall|j: int|
        #![trigger trace[j]]
        0 <= j < trace.len() - 1 ==> stepped(trace[j], records[j], trace[j + 1], Ok(false))
}

/// The data of `records` ends at `n`: its first end of data, or its length.
pub open spec fn ends_at(records: Seq<Record>, n: int) -> bool {
    &&& 0 <= n <= records.len()
    &&& (n == records.len() || records[n] is EndOfData)
    &&& forall|j: int| 0 <= j < n ==> !(#[trigger] records[j] is EndOfData)
}

/// Legs are resolved against the stations as they stand at the end of the
/// stream: two loads that end with the same stations, graph and legs, in
/// whatever order their labels came, finish alike, with the same edges.
pub proof fn lemma_resolution_uses_final_stations(
    a: Loader,
    ra: Result<SurveyData, LoadError>,
    b: Loader,
    rb: Result<SurveyData, LoadError>,
)
    requires
        finished(a, ra),
        finished(b, rb),
        a.data.stations@ == b.data.stations@,
        graph_edges(a.data.graph) == graph_edges(b.data.graph),
        a.connections@ == b.connections@,
    ensures
        ra is Ok <==> rb is Ok,
        ra is Ok ==> graph_edges(ra->Ok_0.graph) == graph_edges(rb->Ok_0.graph),
{
    if ra is Ok {
        let s = a.data.stations@;
        let ea = graph_edges(ra->Ok_0.graph);
        let eb = graph_edges(rb->Ok_0.graph);
        let n = graph_edges(a.data.graph).len();
        assert forall|k: int| 0 <= k < ea.len() implies ea[k] == eb[k] by {
            if k < n {
                assert(ea[k] == ea.subrange(0, n as int)[k]);
                assert(eb[k] == eb.subrange(0, n as int)[k]);
            } else {
                let c = a.connections@[k - n];
                assert(leg_edge(s, c, ea[n + (k - n)]));
                assert(leg_edge(s, c, eb[n + (k - n)]));
                lemma_first_at_coords_unique(s, c.0, ea[k].0 as int, eb[k].0 as int);
                lemma_first_at_coords_unique(s, c.1, ea[k].1 as int, eb[k].1 as int);
            }
        }
        assert(ea =~= eb);
    }
}

proof fn lemma_first_at_coords_unique(s: Seq<Station>, coords: Point, i: int, j: int)
    requires
        first_at_coords(s, coords, i),
        first_at_coords(s, coords, j),
    ensures
        i == j,
{
    if i < j {
        assert(s[i].coords == coords);
    } else if j < i {
        assert(s[j].coords == coords);
    }
}

impl Loader {
    /// A load that has read nothing yet.
    pub fn new() -> (r: Self)
        ensures
            initial(r),
    {
        Loader {
            data: SurveyData::new(),
            last_position: Point::new(-1, -1, -1),
            last_label: String::new(),
            connections: Vec::new(),
        }
    }
    /// Apply one record to the load. `Ok(true)` means that the end of the
    /// data was reached; `Ok(false)` that the load goes on.
    pub fn step(&mut self, record: &Record) -> (r: Result<bool, LoadError>)
        requires
            old(self).data.wf(),
        ensures
            final(self).data.wf(),
            stepped(*old(self), *record, *final(self), r),
    {
        match record {
            Record::OpenError => Err(LoadError::OpenFailure),
            Record::BadData => Err(LoadError::MalformedStream),
            Record::Unknown(_) => Err(LoadError::UnknownRecordKind),
            Record::EndOfData => Ok(true),
            Record::Cross | Record::CrossSectionEnd | Record::ErrorInfo => Ok(false),
            Record::Move(p) => {
                self.last_position = *p;
                Ok(false)
            },
            Record::Line(p) => {
                self.connections.push((self.last_position, *p));
                self.last_position = *p;
                Ok(false)
            },
            Record::Label { coords, label, flags } => {
                self.label_station(*coords, label.as_str(), *flags);
                Ok(false)
            },
            Record::CrossSection { left, right, up, down, flags, label } => {
                if *flags & FLAG_ANONYMOUS == 0 {
                    self.last_label = label.clone();
                }
                match self.data.position_by_label(self.last_label.as_str()) {
                    Some(i) => {
                        proof {
                            lemma_first_is_only(self.data.stations@, self.last_label@, i as int);
                        }
                        let mut st = copy_station(&self.data.stations[i]);
                        st.lrud.update(*left, *right, *up, *down);
                        self.data.stations.set(i, st);
                        Ok(false)
                    },
                    None => Err(LoadError::UnresolvedReference),
                }
            },
        }
    }

    /// Name the station at `coords` `label` and switch on its `flags`; an
    /// anonymous station gets a label that no station holds.
    fn label_station(&mut self, coords: Point, label: &str, flags: u32)
        requires
            old(self).data.wf(),
        ensures
            final(self).data.wf(),
            labelled(old(self).data.stations@, coords, label@, flags, final(self).data.stations@),
            graph_nodes(final(self).data.graph) == if has_label(old(self).data.stations@, label@) {
                graph_nodes(old(self).data.graph)
            } else {
                graph_nodes(old(self).data.graph).push(label@)
            },
            graph_edges(final(self).data.graph) == graph_edges(old(self).data.graph),
            final(self).last_position == old(self).last_position,
            final(self).last_label == old(self).last_label,
            final(self).connections == old(self).connections,
    {
        let k = self.data.add_or_update(coords, label);
        let ghost t = self.data.stations@;
        let mut st = copy_station(&self.data.stations[k]);
        st.set_flags(flags);
        if flags & FLAG_ANONYMOUS != 0 {
            st.label = self.data.fresh_label(random_label());
        }
        self.data.stations.set(k, st);
        proof {
            let s = self.data.stations@;
            assert(upserted(old(self).data.stations@, coords, label@, t));
            assert(forall|j: int| 0 <= j < t.len() && j != k ==> #[trigger] s[j] == t[j]);
        }
    }
    /// Turn each leg into a graph edge between the first stations at its two
    /// ends, weighted by its squared length, in the order in which the legs
    /// were read. Labels may have come after the legs that they name; only
    /// the stations as they stand now count. Fails where an end of a leg
    /// matches no station.
    pub fn finish(self) -> (r: Result<SurveyData, LoadError>)
        requires
            self.data.wf(),
        ensures
            finished(self, r),
    {
        let ghost d0 = self.data;
        let ghost legs = self.connections@;
        let Loader { data, last_position: _, last_label: _, connections } = self;
        let mut data = data;
        let ghost n = graph_edges(d0.graph).len();
        let mut i: usize = 0;
        while i < connections.len()
            invariant
                i <= connections@.len(),
                connections@ == legs,
                d0 == self.data,
                legs == self.connections@,
                data.wf(),
                data.stations@ == d0.stations@,
                graph_nodes(data.graph) == graph_nodes(d0.graph),
                graph_edges(data.graph).len() == n + i,
                graph_edges(data.graph).subrange(0, n as int) == graph_edges(d0.graph),
                forall|c: int|
                    0 <= c < i ==> has_coords(d0.stations@, (#[trigger] connections@[c]).0)
                        && has_coords(d0.stations@, connections@[c].1),
                forall|c: int|
                    0 <= c < i ==> leg_edge(
                        d0.stations@,
                        #[trigger] connections@[c],
                        graph_edges(data.graph)[n + c],
                    ),
            decreases connections@.len() - i,
        {
            let (p1, p2) = connections[i];
            let a = match data.position_by_coords(&p1) {
                Some(a) => a,
                None => {
                    proof {
                        assert(!has_coords(d0.stations@, connections@[i as int].0));
                    }
                    return Err(LoadError::UnresolvedReference);
                },
            };
            let b = match data.position_by_coords(&p2) {
                Some(b) => b,
                None => {
                    proof {
                        assert(!has_coords(d0.stations@, connections@[i as int].1));
                    }
                    return Err(LoadError::UnresolvedReference);
                },
            };
            let ghost before = graph_edges(data.graph);
            add_edge(&mut data.graph, a, b, p1.distance_squared(&p2));
            proof {
                let after = graph_edges(data.graph);
                assert(after.subrange(0, n as int) =~= before.subrange(0, n as int));
                assert forall|c: int| 0 <= c < i implies #[trigger] after[n + c] == before[n + c] by {}
            }
            i = i + 1;
        }
        Ok(data)
    }
}

fn is_end(record: &Record) -> (r: bool)
    ensures
        r == (*record is EndOfData),
{
    match record {
        Record::EndOfData => true,
        _ => false,
    }
}

/// Build a network from a decoded survey stream, read up to its first end of
/// data (or to its last record). Bad data anywhere in what is read fails the
/// load as a malformed stream; failing that, an open error fails it as an
/// open failure, and a record of an unknown kind as such. Otherwise the
/// records are applied in order by [`Loader::step`] and the legs resolved by
/// [`Loader::finish`]; a cross-section or leg that names no station fails the
/// load as an unresolved reference.
pub fn load_records(records: &Vec<Record>) -> (r: Result<SurveyData, LoadError>)
    ensures
        r == Err::<SurveyData, LoadError>(LoadError::MalformedStream) <==> reads_bad_data(
            records@,
        ),
        r == Err::<SurveyData, LoadError>(LoadError::OpenFailure) <==> !reads_bad_data(records@)
            && reads_open_error(records@),
        r == Err::<SurveyData, LoadError>(LoadError::UnknownRecordKind) <==> !reads_bad_data(
            records@,
        ) && !reads_open_error(records@) && reads_unknown(records@),
        r matches Ok(d) ==> d.wf(),
        r is Ok ==> exists|trace: Seq<Loader>|
            {
                &&& #[trigger] ran(records@, trace)
                &&& ends_at(records@, trace.len() - 1)
                &&& finished(trace.last(), r)
            },
        r == Err::<SurveyData, LoadError>(LoadError::UnresolvedReference) ==> exists|
            trace: Seq<Loader>,
        |
            {
                &&& #[trigger] ran(records@, trace)
                &&& if ends_at(records@, trace.len() - 1) {
                    finished(trace.last(), r)
                } else {
                    exists|post: Loader|
                        #[trigger] stepped(
                            trace.last(),
                            records@[trace.len() - 1],
                            post,
                            Err(LoadError::UnresolvedReference),
                        )
                }
            },
{
    let mut end: usize = 0;
    let mut bad = false;
    let mut open = false;
    let mut unknown = false;
    while end < records.len() && !is_end(&records[end])
        invariant
            end <= records@.len(),
            forall|j: int| 0 <= j < end ==> !(#[trigger] records@[j] is EndOfData),
            bad <==> exists|j: int| 0 <= j < end && #[trigger] records@[j] is BadData,
            open <==> exists|j: int| 0 <= j < end && #[trigger] records@[j] is OpenError,
            unknown <==> exists|j: int| 0 <= j < end && #[trigger] records@[j] is Unknown,
        decreases records@.len() - end,
    {
        match &records[end] {
            Record::BadData => {
                bad = true;
            },
            Record::OpenError => {
                open = true;
            },
            Record::Unknown(_) => {
                unknown = true;
            },
            _ => {},
        }
        end = end + 1;
    }
    proof {
        assert forall|i: int| read_at(records@, i) && !(records@[i] is EndOfData) implies i < end by {
            if i > end {
                assert(!(records@[end as int] is EndOfData));
            }
        }
        if bad {
            let j = choose|j: int| 0 <= j < end && #[trigger] records@[j] is BadData;
            assert(read_at(records@, j));
        }
        if open {
            let j = choose|j: int| 0 <= j < end && #[trigger] records@[j] is OpenError;
            assert(read_at(records@, j));
        }
        if unknown {
            let j = choose|j: int| 0 <= j < end && #[trigger] records@[j] is Unknown;
            assert(read_at(records@, j));
        }
    }
    if bad {
        return Err(LoadError::MalformedStream);
    }
    if open {
        return Err(LoadError::OpenFailure);
    }
    if unknown {
        return Err(LoadError::UnknownRecordKind);
    }
    proof {
        assert(ends_at(records@, end as int));
    }
    let mut loader = Loader::new();
    let ghost mut trace: Seq<Loader> = seq![loader];
    let mut i: usize = 0;
    while i < end
        invariant
            i <= end <= records@.len(),
            ends_at(records@, end as int),
            loader.data.wf(),
            ran(records@, trace),
            trace.len() == i + 1,
            trace.last() == loader,
            !reads_bad_data(records@),
            !reads_open_error(records@),
            !reads_unknown(records@),
            forall|j: int| 0 <= j < end ==> !(#[trigger] records@[j] is EndOfData),
            forall|j: int|
                0 <= j < end ==> !(#[trigger] records@[j] is BadData) && !(records@[j] is OpenError)
                    && !(records@[j] is Unknown),
        decreases end - i,
    {
        let ghost pre = loader;
        match loader.step(&records[i]) {
            Ok(_) => {
                proof {
                    let next = trace.push(loader);
                    assert forall|j: int|
                        #![trigger next[j]]
                        0 <= j < next.len() - 1 implies stepped(
                        next[j],
                        records@[j],
                        next[j + 1],
                        Ok(false),
                    ) by {
                        if j < i {
                            assert(next[j] == trace[j] && next[j + 1] == trace[j + 1]);
                        }
                    }
                    trace = next;
                }
            },
            Err(e) => {
                proof {
                    let rec = records@[i as int];
                    assert(!(rec is BadData) && !(rec is OpenError) && !(rec is Unknown));
                    assert(!(rec is EndOfData));
                    assert(e == LoadError::UnresolvedReference);
                    assert(!ends_at(records@, i as int));
                    assert(stepped(trace.last(), records@[trace.len() - 1], loader, Err(e)));
                    assert(ran(records@, trace));
                }
                return Err(e);
            },
        }
        i = i + 1;
    }
    let r = loader.finish();
    proof {
        assert(ran(records@, trace) && ends_at(records@, trace.len() - 1) && finished(trace.last(), r));
    }
    r
}

} // verus!
