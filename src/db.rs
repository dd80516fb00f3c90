//! The storage handle: its open/closed lifecycle, the scans and batches it
//! starts, and how it reads the engine's answers.
use vstd::prelude::*;
use crate::batch::RocksDbTransactionBatch;
use crate::bounds::{IteratorOptions, JsIteratorOptions, PageOptions, prefix_request_fits, prefix_lower, prefix_upper};
use crate::error::{ErrorKind, HubError};
use crate::scan::ScanCursor;

verus! {

/// A handle on one store at a filesystem path. Data operations need it open;
/// once closed it stays closed.
pub struct RocksDB {
    path: String,
    open: bool,
}

/// One answer of the engine to a lookup: the value if the key is present, or
/// the engine's error message.
pub type Lookup = Result<Option<Vec<u8>>, String>;

/// The value `get_many` reports for one lookup: the value, or empty bytes for
/// a key that is absent.
pub open spec fn soft_value(v: Option<Vec<u8>>) -> Seq<u8> {
    match v {
        Some(b) => b@,
        None => Seq::empty(),
    }
}

impl RocksDB {
    pub closed spec fn is_open(&self) -> bool {
        self.open
    }

    /// The path the handle was opened on.
    pub closed spec fn spec_path(&self) -> Seq<char> {
        self.path@
    }

    /// A handle on the store at `path`, open.
    pub fn new(path: &str) -> (r: Result<RocksDB, HubError>)
        ensures
            r is Ok,
            r->Ok_0.spec_path() == path@,
            r->Ok_0.is_open(),
    {
        Ok(RocksDB { path: path.to_owned(), open: true })
    }

    /// Fails fast with `Closed` unless the handle is open.
    pub fn db(&self) -> (r: Result<(), HubError>)
        ensures
            r is Ok <==> self.is_open(),
            r is Err ==> r->Err_0.kind == ErrorKind::Closed,
    {
        if self.open {
            Ok(())
        } else {
            Err(HubError::new(ErrorKind::Closed, "database is closed".to_string()))
        }
    }

    /// The path of the open store.
    pub fn location(&self) -> (r: Result<String, HubError>)
        ensures
            r is Ok <==> self.is_open(),
            r is Ok ==> r->Ok_0@ == self.spec_path(),
            r is Err ==> r->Err_0.kind == ErrorKind::Closed,
    {
        self.db()?;
        Ok(self.path.clone())
    }

    /// Closes the handle. Closing a closed handle does nothing and succeeds.
    pub fn close(&mut self) -> (r: Result<(), HubError>)
        ensures
            r is Ok,
            !final(self).is_open(),
            final(self).spec_path() == old(self).spec_path(),
    {
        self.open = false;
        Ok(())
    }

    /// Closes the handle ahead of removing the store's files, and gives the
    /// path whose contents are to be removed.
    pub fn destroy(&mut self) -> (r: String)
        ensures
            !final(self).is_open(),
            final(self).spec_path() == old(self).spec_path(),
            r@ == old(self).spec_path(),
    {
        self.open = false;
        self.path.clone()
    }

    /// A new, empty batch.
    pub fn txn(&self) -> (r: RocksDbTransactionBatch)
        ensures
            r.ops().len() == 0,
    {
        RocksDbTransactionBatch::new()
    }

    /// The store's size is not estimated: always zero.
    pub fn approximate_size(&self) -> (r: u64)
        ensures
            r == 0,
    {
        0
    }

    /// Reads the engine's answers to a batch lookup. Any engine error fails the
    /// whole lookup with `InternalError`; otherwise there is one value per key,
    /// in order, with empty bytes where a key is absent.
    pub fn get_many(&self, results: Vec<Lookup>) -> (r: Result<Vec<Vec<u8>>, HubError>)
        ensures
            r is Ok <==> (self.is_open() && forall|i: int| 0 <= i < results@.len() ==> #[trigger] results@[i] is Ok),
            r is Err ==> (r->Err_0.kind == (if self.is_open() { ErrorKind::InternalError } else { ErrorKind::Closed })),
            r is Ok ==> r->Ok_0@.len() == results@.len() && forall|i: int| 0 <= i < results@.len()
                ==> #[trigger] r->Ok_0@[i]@ == soft_value(results@[i]->Ok_0),
    {
        self.db()?;
        let n = results.len();
        let mut values: Vec<Vec<u8>> = Vec::new();
        let mut i: usize = 0;
        while i < n
            invariant
                self.is_open(),
                n == results@.len(),
                i <= n,
                values@.len() == i,
                forall|j: int| 0 <= j < i ==> #[trigger] results@[j] is Ok,
                forall|j: int| 0 <= j < i ==> #[trigger] values@[j]@ == soft_value(results@[j]->Ok_0),
            decreases n - i,
        {
            match &results[i] {
                Ok(Some(v)) => values.push(v.clone()),
                Ok(None) => values.push(Vec::new()),
                Err(message) => {
                    return Err(HubError::new(ErrorKind::InternalError, message.clone()));
                },
            }
            i = i + 1;
        }
        Ok(values)
    }

    /// Starts a prefix scan: the window of `get_iterator_options`, on an open
    /// handle.
    pub fn for_each_iterator_by_prefix(&self, prefix: &[u8], page_options: &PageOptions) -> (r: Result<ScanCursor, HubError>)
        requires
            prefix_request_fits(prefix@, page_options.token()),
        ensures
            r is Ok <==> self.is_open(),
            r is Err ==> r->Err_0.kind == ErrorKind::Closed,
            r is Ok ==> ({
                let c = r->Ok_0;
                &&& c.at_start
                &&& c.options.lower@ == prefix_lower(prefix@, page_options.reverse, page_options.token())
                &&& c.options.upper@ == prefix_upper(prefix@, page_options.reverse, page_options.token())
                &&& c.options.reverse == page_options.reverse
                &&& !c.options.exclusive_lower
            }),
    {
        self.db()?;
        Ok(ScanCursor::new(RocksDB::get_iterator_options(prefix, page_options)))
    }

    /// Starts a scan by explicit bounds. A request with both or neither of
    /// `gte` and `gt` fails with `InvalidIteratorOptions` before anything else.
    pub fn for_each_iterator_by_jsopts(&self, js_opts: JsIteratorOptions) -> (r: Result<ScanCursor, HubError>)
        ensures
            r is Ok <==> (js_opts.well_formed() && self.is_open()),
            !js_opts.well_formed() ==> r->Err_0.kind == ErrorKind::InvalidIteratorOptions,
            js_opts.well_formed() && !self.is_open() ==> r->Err_0.kind == ErrorKind::Closed,
            r is Ok ==> ({
                let c = r->Ok_0;
                &&& c.at_start
                &&& c.options.lower@ == js_opts.spec_lower()
                &&& c.options.upper@ == js_opts.lt@
                &&& c.options.reverse == js_opts.reverse
                &&& c.options.exclusive_lower == js_opts.gt.is_some()
            }),
    {
        let options = IteratorOptions::from_js(js_opts)?;
        self.db()?;
        Ok(ScanCursor::new(options))
    }
}

/// The passes of `clear`: each pass deletes what a full scan finds and the
/// passes go on until one deletes nothing.
pub struct ClearProgress {
    /// Entries deleted so far, saturating at `u32::MAX`.
    pub total: u32,
    pub finished: bool,
}

impl RocksDB {
    /// Starts clearing an open store.
    pub fn clear(&self) -> (r: Result<ClearProgress, HubError>)
        ensures
            r is Ok <==> self.is_open(),
            r is Err ==> r->Err_0.kind == ErrorKind::Closed,
            r is Ok ==> r->Ok_0.total == 0 && !r->Ok_0.finished,
    {
        self.db()?;
        Ok(ClearProgress { total: 0, finished: false })
    }
}

impl ClearProgress {
    /// Records a committed pass that deleted `deleted` entries. Returns whether
    /// another pass is due: exactly when this one deleted something.
    pub fn after_pass(&mut self, deleted: u32) -> (r: bool)
        requires
            !old(self).finished,
        ensures
            r == (deleted > 0),
            final(self).finished == !r,
            final(self).total == if old(self).total + deleted > u32::MAX { u32::MAX as int } else {
                old(self).total + deleted
            },
    {
        self.total = self.total.saturating_add(deleted);
        self.finished = deleted == 0;
        deleted > 0
    }
}

} // verus!
