use vstd::prelude::*;

use crate::types::{copy_bytes, Scope};

verus! {

/// Kind of debug file a source may hold.
#[derive(Clone, Copy, Debug, PartialEq, Eq, Structural)]
pub enum FileType {
    Pe,
    Pdb,
    MachDebug,
    MachCode,
    ElfDebug,
    ElfCode,
    Breakpad,
    SourceBundle,
}

/// What the searched file is needed for.
#[derive(Clone, Copy, Debug, PartialEq, Eq, Structural)]
pub enum ObjectPurpose {
    Unwind,
    Debug,
    Source,
}

/// The resolution key of a debug file.
#[derive(Clone, Debug)]
pub struct ObjectId {
    pub code_id: Option<String>,
    pub code_file: Option<String>,
    pub debug_id: Option<String>,
    pub debug_file: Option<String>,
}

/// How a source is reached.
#[derive(Clone, Copy, Debug, PartialEq, Eq, Structural)]
pub enum SourceKind {
    Http,
    S3,
    Gcs,
    Filesystem,
    Sentry,
}

/// Where debug files may be found.
#[derive(Clone, Debug)]
pub struct SourceConfig {
    pub id: String,
    pub kind: SourceKind,
    pub location: String,
}

/// A resolution query.
pub struct FindObject {
    /// Accepted file kinds, most preferred first.
    pub filetypes: Vec<FileType>,
    pub identifier: ObjectId,
    /// Sources to search, highest priority first.
    pub sources: Vec<SourceConfig>,
    pub scope: Scope,
    pub purpose: ObjectPurpose,
}

/// Answer of one source backend to one existence probe.
#[derive(Clone, Copy, Debug, PartialEq, Eq, Structural)]
pub enum ProbeOutcome {
    Hit,
    Miss,
    /// The backend failed; counts as no match at this source.
    Unavailable,
}

/// Where a match was found; enough to fetch it, without its bytes.
#[derive(Clone, Copy, Debug, PartialEq, Eq, Structural)]
pub struct FoundObjectMeta {
    pub source_index: usize,
    pub filetype: FileType,
    pub purpose: ObjectPurpose,
}

/// What the searcher asks for next.
#[derive(Clone, Copy, Debug, PartialEq, Eq, Structural)]
pub enum ResolveStep {
    /// Probe source `source` for the filetype at `filetype_index` of the query.
    Probe { source: usize, filetype_index: usize, filetype: FileType },
    Found(FoundObjectMeta),
    NotFound,
}

/// Index of the first hit at or after `k`, if any.
pub open spec fn first_hit(hits: Seq<bool>, k: nat) -> Option<nat>
    decreases hits.len() - k,
{
    if k >= hits.len() {
        None
    } else if hits[k as int] {
        Some(k)
    } else {
        first_hit(hits, k + 1)
    }
}

/// Position of the pair (source, filetype) in probe order: sources in
/// priority order, and within each source the filetypes in preference order.
pub open spec fn probe_index(n_filetypes: nat, source: nat, filetype_index: nat) -> nat {
    source * n_filetypes + filetype_index
}

/// One search over the sources and filetypes of a query.
pub struct Resolution {
    request: FindObject,
    source: usize,
    filetype: usize,
    finished: bool,
    answers: Ghost<Seq<bool>>,
}

impl Resolution {
    pub closed spec fn n_sources(&self) -> nat {
        self.request.sources@.len()
    }

    pub closed spec fn n_filetypes(&self) -> nat {
        self.request.filetypes@.len()
    }

    pub closed spec fn filetypes(&self) -> Seq<FileType> {
        self.request.filetypes@
    }

    pub closed spec fn purpose(&self) -> ObjectPurpose {
        self.request.purpose
    }

    /// Whether each probe answered so far was a hit, in probe order.
    pub closed spec fn answers(&self) -> Seq<bool> {
        self.answers@
    }

    pub closed spec fn finished(&self) -> bool {
        self.finished
    }

    pub closed spec fn wf(&self) -> bool {
        &&& !self.finished ==> {
            &&& self.source < self.request.sources@.len()
            &&& self.filetype < self.request.filetypes@.len()
            &&& self.answers@.len() == probe_index(
                self.request.filetypes@.len(),
                self.source as nat,
                self.filetype as nat,
            )
            &&& forall|j: int| 0 <= j < self.answers@.len() ==> !#[trigger] self.answers@[j]
        }
    }

    /// Starts a search. With no source or no filetype it is over at once and
    /// probes nothing; otherwise the first probe is the first filetype at the
    /// first source.
    pub fn start(request: FindObject) -> (res: (Resolution, ResolveStep))
        ensures
            res.0.wf(),
            res.0.n_sources() == request.sources@.len(),
            res.0.n_filetypes() == request.filetypes@.len(),
            res.0.filetypes() == request.filetypes@,
            res.0.purpose() == request.purpose,
            res.0.answers() == Seq::<bool>::empty(),
            request.sources@.len() == 0 || request.filetypes@.len() == 0 ==> {
                &&& res.1 == ResolveStep::NotFound
                &&& res.0.finished()
            },
            request.sources@.len() > 0 && request.filetypes@.len() > 0 ==> {
                &&& res.1 == ResolveStep::Probe {
                    source: 0,
                    filetype_index: 0,
                    filetype: request.filetypes@[0],
                }
                &&& !res.0.finished()
            },
    {
        let empty = request.sources.len() == 0 || request.filetypes.len() == 0;
        let step = if empty {
            ResolveStep::NotFound
        } else {
            ResolveStep::Probe { source: 0, filetype_index: 0, filetype: request.filetypes[0] }
        };
        let r = Resolution {
            request,
            source: 0,
            filetype: 0,
            finished: empty,
            answers: Ghost(Seq::empty()),
        };
        (r, step)
    }

    /// The query being resolved.
    pub fn request(&self) -> (r: &FindObject)
        ensures
            r.sources@.len() == self.n_sources(),
            r.filetypes@ == self.filetypes(),
    {
        &self.request
    }

    /// Takes the outcome of the probe last asked for. A hit ends the search
    /// with that source and filetype; a miss or an unavailable backend moves
    /// on to the next filetype, then to the next source, and the search ends
    /// with `NotFound` after the last pair.
    pub fn advance(&mut self, outcome: ProbeOutcome) -> (r: ResolveStep)
        requires
            old(self).wf(),
            !old(self).finished(),
        ensures
            final(self).wf(),
            final(self).n_sources() == old(self).n_sources(),
            final(self).n_filetypes() == old(self).n_filetypes(),
            final(self).filetypes() == old(self).filetypes(),
            final(self).purpose() == old(self).purpose(),
            final(self).answers() == old(self).answers().push(outcome == ProbeOutcome::Hit),
            match r {
                ResolveStep::Found(meta) => {
                    &&& outcome == ProbeOutcome::Hit
                    &&& final(self).finished()
                    &&& meta.source_index < old(self).n_sources()
                    &&& exists|f: nat|
                        f < old(self).n_filetypes() && probe_index(
                            old(self).n_filetypes(),
                            meta.source_index as nat,
                            f,
                        ) == old(self).answers().len() && meta.filetype == old(self).filetypes()[f as int]
                    &&& meta.purpose == old(self).purpose()
                    &&& first_hit(final(self).answers(), 0) == Some(old(self).answers().len())
                },
                ResolveStep::NotFound => {
                    &&& outcome != ProbeOutcome::Hit
                    &&& final(self).finished()
                    &&& final(self).answers().len() == old(self).n_sources() * old(self).n_filetypes()
                    &&& first_hit(final(self).answers(), 0) is None
                },
                ResolveStep::Probe { source, filetype_index, filetype } => {
                    &&& outcome != ProbeOutcome::Hit
                    &&& !final(self).finished()
                    &&& source < old(self).n_sources()
                    &&& filetype_index < old(self).n_filetypes()
                    &&& filetype == old(self).filetypes()[filetype_index as int]
                    &&& probe_index(old(self).n_filetypes(), source as nat, filetype_index as nat)
                        == final(self).answers().len()
                    &&& first_hit(final(self).answers(), 0) is None
                },
            },
    {
        let hit = match outcome {
            ProbeOutcome::Hit => true,
            _ => false,
        };
        let ghost before = self.answers@;
        let n_filetypes = self.request.filetypes.len();
        let n_sources = self.request.sources.len();
        self.answers = Ghost(self.answers@.push(hit));
        proof {
            lemma_first_hit_prefix(self.answers@, 0);
        }
        if hit {
            self.finished = true;
            proof {
                let f = self.filetype as nat;
                assert(f < old(self).n_filetypes() && probe_index(
                    old(self).n_filetypes(),
                    self.source as nat,
                    f,
                ) == before.len() && self.request.filetypes@[f as int] == old(self).filetypes()[f as int]);
            }
            return ResolveStep::Found(
                FoundObjectMeta {
                    source_index: self.source,
                    filetype: self.request.filetypes[self.filetype],
                    purpose: self.request.purpose,
                },
            );
        }
        if self.filetype + 1 < n_filetypes {
            self.filetype = self.filetype + 1;
        } else if self.source + 1 < n_sources {
            self.source = self.source + 1;
            self.filetype = 0;
            proof {
                let nf = self.request.filetypes@.len();
                assert((self.source - 1) * nf + nf == self.source * nf) by (nonlinear_arith);
            }
        } else {
            self.finished = true;
            proof {
                let nf = self.request.filetypes@.len();
                let ns = self.request.sources@.len();
                assert(self.source * nf + nf == ns * nf) by (nonlinear_arith)
                    requires
                        self.source + 1 == ns,
                ;
            }
            return ResolveStep::NotFound;
        }
        ResolveStep::Probe {
            source: self.source,
            filetype_index: self.filetype,
            filetype: self.request.filetypes[self.filetype],
        }
    }
}

/// With every entry but possibly the last a miss, the first hit is the last
/// entry if it hits, and there is none otherwise.
proof fn lemma_first_hit_prefix(hits: Seq<bool>, k: nat)
    requires
        k < hits.len(),
        forall|j: int| k <= j < hits.len() - 1 ==> !#[trigger] hits[j],
    ensures
        hits[hits.len() - 1] ==> first_hit(hits, k) == Some((hits.len() - 1) as nat),
        !hits[hits.len() - 1] ==> first_hit(hits, k) is None,
    decreases hits.len() - k,
{
    if k + 1 < hits.len() {
        lemma_first_hit_prefix(hits, k + 1);
    } else {
        assert(first_hit(hits, k + 1) is None);
    }
}

/// The first hit at or after `k` comes no later than any hit `j`.
proof fn lemma_first_hit_is_earliest(hits: Seq<bool>, k: nat, j: nat)
    requires
        k <= j < hits.len(),
        hits[j as int],
    ensures
        first_hit(hits, k) is Some,
        first_hit(hits, k)->0 <= j,
    decreases j - k,
{
    if !hits[k as int] {
        lemma_first_hit_is_earliest(hits, k + 1, j);
    }
}

/// Resolution respects source priority: when sources `a < b` both hold a
/// match, the search, whose result is the first hit in probe order, ends at a
/// source no later than `a`, so never at `b`.
pub proof fn lemma_earlier_source_wins(
    hits: Seq<bool>,
    n_filetypes: nat,
    a: nat,
    fa: nat,
    b: nat,
    fb: nat,
    source: nat,
    f: nat,
)
    requires
        a < b,
        fa < n_filetypes,
        fb < n_filetypes,
        probe_index(n_filetypes, b, fb) < hits.len(),
        hits[probe_index(n_filetypes, a, fa) as int],
        hits[probe_index(n_filetypes, b, fb) as int],
        f < n_filetypes,
        first_hit(hits, 0) == Some(probe_index(n_filetypes, source, f)),
    ensures
        source <= a,
        source != b,
{
    assert(probe_index(n_filetypes, a, fa) < probe_index(n_filetypes, b, fb)) by (nonlinear_arith)
        requires
            a < b,
            fa < n_filetypes,
            probe_index(n_filetypes, a, fa) == a * n_filetypes + fa,
            probe_index(n_filetypes, b, fb) == b * n_filetypes + fb,
    ;
    lemma_first_hit_is_earliest(hits, 0, probe_index(n_filetypes, a, fa));
    assert(source <= a) by (nonlinear_arith)
        requires
            source * n_filetypes + f <= a * n_filetypes + fa,
            fa < n_filetypes,
    ;
}

/// A fetched object: the bytes a backend transferred, if any.
pub struct ObjectHandle {
    meta: FoundObjectMeta,
    data: Option<Vec<u8>>,
}

impl ObjectHandle {
    /// Where the object was found.
    pub closed spec fn found(&self) -> FoundObjectMeta {
        self.meta
    }

    /// The transferred bytes; empty when the backend sent nothing.
    pub closed spec fn bytes(&self) -> Seq<u8> {
        match self.data {
            Some(d) => d@,
            None => Seq::empty(),
        }
    }

    pub closed spec fn present(&self) -> bool {
        self.data is Some && self.bytes().len() > 0
    }

    /// Wraps the outcome of a transfer; `None` when the backend reported the
    /// object missing.
    pub fn new(meta: FoundObjectMeta, data: Option<Vec<u8>>) -> (h: ObjectHandle)
        ensures
            h.found() == meta,
            h.bytes() == match data {
                Some(d) => d@,
                None => Seq::<u8>::empty(),
            },
            h.present() == (data is Some && h.bytes().len() > 0),
    {
        ObjectHandle { meta, data }
    }

    pub fn meta(&self) -> (r: FoundObjectMeta)
        ensures
            r == self.found(),
    {
        self.meta
    }

    /// Whether the transfer produced a non-empty payload.
    pub fn has_object(&self) -> (r: bool)
        ensures
            r == self.present(),
    {
        match &self.data {
            Some(d) => d.len() > 0,
            None => false,
        }
    }

    /// Number of bytes that streaming the handle yields.
    pub fn len(&self) -> (r: usize)
        ensures
            r == self.bytes().len(),
    {
        match &self.data {
            Some(d) => d.len(),
            None => 0,
        }
    }

    /// The bytes of the object.
    pub fn data(&self) -> (r: &[u8])
        ensures
            r@ == self.bytes(),
    {
        match &self.data {
            Some(d) => d.as_slice(),
            None => &[],
        }
    }

    /// A copy of the bytes of the object.
    pub fn to_vec(&self) -> (r: Vec<u8>)
        ensures
            r@ == self.bytes(),
    {
        match &self.data {
            Some(d) => copy_bytes(d),
            None => Vec::new(),
        }
    }
}

} // verus!
