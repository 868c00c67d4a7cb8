//! The flow store: a read-through cache of parsed flow definitions, keyed by
//! name and guarded by the definition file's modification stamp so repeated
//! loads are cheap but never stale. The surrounding server reads the file and
//! its stamp; the store decides freshness, parses and caches.

use vstd::prelude::*;
use crate::flow::{spec_parse_fields, Flow};
use crate::kvmap::AssocMap;

verus! {

/// A parsed flow together with the modification stamp of its file.
pub struct CachedFlow {
    pub modified: u64,
    pub flow: Flow,
}

/// Cache of flow descriptors by name.
pub struct FlowStore {
    pub cache: AssocMap<CachedFlow>,
}

impl View for FlowStore {
    type V = Map<Seq<char>, CachedFlow>;

    open spec fn view(&self) -> Map<Seq<char>, CachedFlow> {
        self.cache@
    }
}

impl FlowStore {
    /// Well-formed: one cache entry per name.
    pub open spec fn wf(&self) -> bool {
        self.cache.wf()
    }

    /// An empty cache.
    pub fn new() -> (r: FlowStore)
        ensures
            r@ == Map::<Seq<char>, CachedFlow>::empty(),
            r.wf(),
    {
        FlowStore { cache: AssocMap::new() }
    }

    /// The cached flow under `name`, exactly when it was cached from a file
    /// with the same modification stamp.
    pub fn cached(&self, name: &str, modified: u64) -> (r: Option<&Flow>)
        requires
            self.wf(),
        ensures
            match r {
                Some(f) => self@.contains_key(name@) && self@[name@].modified == modified && *f
                    == self@[name@].flow,
                None => !self@.contains_key(name@) || self@[name@].modified != modified,
            },
    {
        match self.cache.get(name) {
            Some(c) => if c.modified == modified {
                Some(&c.flow)
            } else {
                None
            },
            None => None,
        }
    }

    /// Parses a definition text and, exactly on success, caches the flow
    /// under `name` with the file's stamp. A malformed text leaves the cache
    /// untouched and never caches a partially populated flow.
    pub fn load(&mut self, name: &str, modified: u64, contents: &str) -> (r: Result<Flow, String>)
        requires
            old(self).wf(),
        ensures
            final(self).wf(),
            match r {
                Ok(f) => {
                    &&& spec_parse_fields(contents@) == Some(
                        (f.name@, f.description@, f.version@),
                    )
                    &&& final(self)@.dom() == old(self)@.dom().insert(name@)
                    &&& final(self)@[name@].modified == modified
                    &&& final(self)@[name@].flow.name@ == f.name@
                    &&& final(self)@[name@].flow.description@ == f.description@
                    &&& final(self)@[name@].flow.version@ == f.version@
                    &&& forall|k: Seq<char>|
                        k != name@ && old(self)@.contains_key(k) ==> final(self)@[k] == old(
                            self,
                        )@[k]
                },
                Err(e) => {
                    &&& spec_parse_fields(contents@) is None
                    &&& e@ == "malformed flow definition"@
                    &&& final(self)@ == old(self)@
                },
            },
    {
        match Flow::from_file(contents) {
            Ok(f) => {
                let copy = f.duplicate();
                self.cache.insert(name, CachedFlow { modified, flow: copy });
                proof {
                    assert(self@.dom() =~= old(self)@.dom().insert(name@));
                }
                Ok(f)
            },
            Err(e) => Err(e),
        }
    }
}

} // verus!
