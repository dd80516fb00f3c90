use hubble_store::batch::RocksDbTransactionBatch;
use hubble_store::bounds::{IteratorOptions, JsIteratorOptions, PageOptions};
use hubble_store::db::RocksDB;
use hubble_store::error::ErrorKind;
use hubble_store::keys::{increment_vec_u8, key_eq, key_less};
use hubble_store::scan::{CursorMove, ScanCursor, ScanStep};

fn no_token(reverse: bool) -> PageOptions {
    PageOptions { reverse, page_token: None }
}

fn with_token(reverse: bool, token: &[u8]) -> PageOptions {
    PageOptions { reverse, page_token: Some(token.to_vec()) }
}

fn js(gte: Option<Vec<u8>>, gt: Option<Vec<u8>>, lt: Vec<u8>, reverse: bool) -> JsIteratorOptions {
    JsIteratorOptions { reverse, gte, gt, lt }
}

fn open_db() -> RocksDB {
    RocksDB::new("/data/hub").unwrap()
}

#[test]
fn increment_raises_last_byte() {
    assert_eq!(increment_vec_u8(&vec![0x01, 0x02]), vec![0x01, 0x03]);
}

#[test]
fn increment_carries_over_trailing_ff() {
    assert_eq!(increment_vec_u8(&vec![0x01, 0xFF]), vec![0x02]);
    assert_eq!(increment_vec_u8(&vec![0x05, 0xFE, 0xFF, 0xFF]), vec![0x05, 0xFF]);
}

#[test]
fn increment_of_all_ff_grows_by_one_zero_byte() {
    assert_eq!(increment_vec_u8(&vec![0xFF, 0xFF]), vec![0x00, 0x00, 0x00]);
    assert_eq!(increment_vec_u8(&vec![0xFF]), vec![0x00, 0x00]);
}

#[test]
fn increment_bounds_the_prefix_family() {
    let b = vec![0x01, 0x02];
    let up = increment_vec_u8(&b);
    assert!(key_less(&b, &up));
    assert!(key_less(&[0x01, 0x02, 0xFF, 0xFF], &up));
    assert!(!key_less(&[0x01, 0x03], &up));
}

#[test]
fn key_order_is_bytewise_unsigned() {
    assert!(key_less(&[0x01], &[0x01, 0x00]));
    assert!(key_less(&[0x01, 0xFF], &[0x02]));
    assert!(key_less(&[0x7F], &[0x80]));
    assert!(!key_less(&[0x02], &[0x02]));
    assert!(!key_less(&[0x02, 0x00], &[0x02]));
    assert!(key_less(&[], &[0x00]));
    assert!(key_eq(&[0x03, 0x04], &[0x03, 0x04]));
    assert!(!key_eq(&[0x03], &[0x03, 0x04]));
}

#[test]
fn empty_prefix_scans_whole_keyspace_below_ff() {
    let o = RocksDB::get_iterator_options(&[], &no_token(true));
    assert_eq!(o.lower, Vec::<u8>::new());
    assert_eq!(o.upper, vec![0xFF]);
    assert!(o.reverse);
    assert!(!o.exclusive_lower);
    assert!(o.admits(&[]));
    assert!(o.admits(&[0xFE, 0xFF]));
    assert!(!o.admits(&[0xFF]));
}

#[test]
fn prefix_scan_covers_exactly_the_family() {
    let o = RocksDB::get_iterator_options(&[0x01, 0x02], &no_token(false));
    assert_eq!(o.lower, vec![0x01, 0x02]);
    assert_eq!(o.upper, vec![0x01, 0x03]);
    for k in [vec![0x01, 0x02], vec![0x01, 0x02, 0x00], vec![0x01, 0x02, 0xFF, 0xFF]] {
        assert!(o.admits(&k));
    }
    for k in [vec![0x01], vec![0x01, 0x01, 0xFF], vec![0x01, 0x03], vec![0x02]] {
        assert!(!o.admits(&k));
    }
}

#[test]
fn prefix_ending_in_ff_uses_carry_for_upper_bound() {
    let o = RocksDB::get_iterator_options(&[0x01, 0xFF], &no_token(false));
    assert_eq!(o.upper, vec![0x02]);
    assert!(o.admits(&[0x01, 0xFF, 0x07]));
    assert!(!o.admits(&[0x02]));
}

#[test]
fn reverse_prefix_scan_has_the_forward_window() {
    let f = RocksDB::get_iterator_options(&[0x09, 0x00], &no_token(false));
    let r = RocksDB::get_iterator_options(&[0x09, 0x00], &no_token(true));
    assert_eq!(f.lower, r.lower);
    assert_eq!(f.upper, r.upper);
    assert!(!f.reverse);
    assert!(r.reverse);
    assert_eq!(ScanCursor::new(f).start(), CursorMove::SeekToFirst);
    assert_eq!(ScanCursor::new(r).start(), CursorMove::SeekToLast);
}

#[test]
fn forward_page_token_resumes_after_last_key() {
    let o = RocksDB::get_iterator_options(&[0x01], &with_token(false, &[0x05]));
    assert_eq!(o.lower, vec![0x01, 0x06]);
    assert_eq!(o.upper, vec![0x02]);
    assert!(!o.admits(&[0x01, 0x04]));
    assert!(!o.admits(&[0x01, 0x05]));
    assert!(o.admits(&[0x01, 0x06]));
    assert!(o.admits(&[0x01, 0x80, 0x00]));
    assert!(!o.admits(&[0x02]));
}

#[test]
fn reverse_page_token_resumes_before_last_key() {
    let o = RocksDB::get_iterator_options(&[0x01], &with_token(true, &[0x05]));
    assert_eq!(o.lower, vec![0x01]);
    assert_eq!(o.upper, vec![0x01, 0x05]);
    assert!(o.admits(&[0x01]));
    assert!(o.admits(&[0x01, 0x04, 0xFF]));
    assert!(!o.admits(&[0x01, 0x05]));
    assert!(!o.admits(&[0x01, 0x06]));
}

#[test]
fn explicit_gte_includes_lower_and_excludes_upper() {
    let o = IteratorOptions::from_js(js(Some(vec![0x10]), None, vec![0x20], false)).unwrap();
    assert!(!o.exclusive_lower);
    assert!(o.admits(&[0x10]));
    assert!(o.admits(&[0x1F, 0xFF]));
    assert!(!o.admits(&[0x20]));
}

#[test]
fn explicit_gt_excludes_lower() {
    let o = IteratorOptions::from_js(js(None, Some(vec![0x10]), vec![0x20], false)).unwrap();
    assert!(o.exclusive_lower);
    assert!(!o.admits(&[0x10]));
    assert!(o.admits(&[0x11]));
    let mut c = ScanCursor::new(o);
    assert!(!c.should_visit(&[0x10]));
    assert!(c.should_visit(&[0x11]));
}

#[test]
fn gt_skip_happens_only_at_first_position() {
    let o = IteratorOptions::from_js(js(None, Some(vec![0x10]), vec![0x20], true)).unwrap();
    let mut c = ScanCursor::new(o);
    assert!(c.should_visit(&[0x15]));
    assert!(c.should_visit(&[0x10]));
}

#[test]
fn gte_never_skips() {
    let o = IteratorOptions::from_js(js(Some(vec![0x10]), None, vec![0x20], false)).unwrap();
    let mut c = ScanCursor::new(o);
    assert!(c.should_visit(&[0x10]));
}

#[test]
fn both_gte_and_gt_is_invalid() {
    let e = IteratorOptions::from_js(js(Some(vec![1]), Some(vec![1]), vec![2], false)).err().unwrap();
    assert_eq!(e.kind, ErrorKind::InvalidIteratorOptions);
    assert_eq!(e.code(), "db.invalid_iterator_options");
}

#[test]
fn neither_gte_nor_gt_is_invalid() {
    let e = IteratorOptions::from_js(js(None, None, vec![2], false)).err().unwrap();
    assert_eq!(e.kind, ErrorKind::InvalidIteratorOptions);
}

#[test]
fn visitor_answers_drive_the_scan() {
    let c = ScanCursor::new(RocksDB::get_iterator_options(&[0x01], &no_token(true)));
    assert_eq!(c.advance(), CursorMove::Prev);
    assert_eq!(c.after_visit(Ok(true)).unwrap(), ScanStep::Continue(CursorMove::Prev));
    assert_eq!(c.after_visit(Ok(false)).unwrap(), ScanStep::Stop);
    let err = hubble_store::error::HubError::new(ErrorKind::InternalError, "visitor failed".to_string());
    let e = c.after_visit(Err(err)).err().unwrap();
    assert_eq!(e.kind, ErrorKind::InternalError);
    assert_eq!(e.message, "visitor failed");
}

#[test]
fn batch_keeps_insertion_order() {
    let mut b = RocksDbTransactionBatch::new();
    b.put(vec![1], vec![10]);
    b.delete(vec![1]);
    b.put(vec![2], vec![20]);
    assert_eq!(b.len(), 3);
    assert_eq!(b.batch[0], (vec![1], Some(vec![10])));
    assert_eq!(b.batch[1], (vec![1], None));
    assert_eq!(b.batch[2], (vec![2], Some(vec![20])));
}

#[test]
fn empty_value_entry_means_delete() {
    let mut b = RocksDbTransactionBatch::new();
    b.push_entry(vec![1], Some(vec![]));
    b.push_entry(vec![2], None);
    b.push_entry(vec![3], Some(vec![7]));
    assert_eq!(b.batch, vec![(vec![1], None), (vec![2], None), (vec![3], Some(vec![7]))]);
}

#[test]
fn get_many_soft_miss() {
    let db = open_db();
    let r = db.get_many(vec![Ok(Some(vec![0xAA])), Ok(None)]).unwrap();
    assert_eq!(r, vec![vec![0xAA], vec![]]);
}

#[test]
fn get_many_engine_error_fails_whole_lookup() {
    let db = open_db();
    let e = db.get_many(vec![Ok(None), Err("io error".to_string())]).err().unwrap();
    assert_eq!(e.kind, ErrorKind::InternalError);
    assert_eq!(e.code(), "db.internal_error");
    assert_eq!(e.message, "io error");
}

#[test]
fn clear_on_empty_store_returns_zero() {
    let db = open_db();
    let mut p = db.clear().unwrap();
    assert!(!p.after_pass(0));
    assert_eq!(p.total, 0);
    assert!(p.finished);
}

#[test]
fn clear_twice_counts_once() {
    let db = open_db();
    let mut p = db.clear().unwrap();
    assert!(p.after_pass(3));
    assert!(p.after_pass(1));
    assert!(!p.after_pass(0));
    assert_eq!(p.total, 4);
    let mut q = db.clear().unwrap();
    assert!(!q.after_pass(0));
    assert_eq!(q.total, 0);
}

#[test]
fn clear_total_saturates() {
    let db = open_db();
    let mut p = db.clear().unwrap();
    assert!(p.after_pass(u32::MAX));
    assert!(p.after_pass(5));
    assert_eq!(p.total, u32::MAX);
}

#[test]
fn handle_lifecycle() {
    let mut db = open_db();
    assert_eq!(db.location().unwrap(), "/data/hub");
    assert!(db.db().is_ok());
    assert!(db.close().is_ok());
    assert!(db.close().is_ok());
    assert_eq!(db.location().err().unwrap().kind, ErrorKind::Closed);
    assert_eq!(db.db().err().unwrap().code(), "db.closed");
    assert_eq!(db.get_many(vec![]).err().unwrap().kind, ErrorKind::Closed);
    assert_eq!(db.clear().err().unwrap().kind, ErrorKind::Closed);
    assert!(db.for_each_iterator_by_prefix(&[1], &no_token(false)).is_err());
}

#[test]
fn destroy_closes_and_names_the_path() {
    let mut db = open_db();
    assert_eq!(db.destroy(), "/data/hub");
    assert!(db.location().is_err());
}

#[test]
fn invalid_options_reported_before_closed() {
    let mut db = open_db();
    db.close().unwrap();
    let e = db.for_each_iterator_by_jsopts(js(None, None, vec![1], false)).err().unwrap();
    assert_eq!(e.kind, ErrorKind::InvalidIteratorOptions);
    let e = db.for_each_iterator_by_jsopts(js(Some(vec![0]), None, vec![1], false)).err().unwrap();
    assert_eq!(e.kind, ErrorKind::Closed);
}

#[test]
fn scans_start_on_open_handle() {
    let db = open_db();
    let c = db.for_each_iterator_by_prefix(&[0x01], &with_token(false, &[0x02])).unwrap();
    assert!(c.at_start);
    assert_eq!(c.options.lower, vec![0x01, 0x03]);
    let c = db.for_each_iterator_by_jsopts(js(None, Some(vec![4]), vec![9], true)).unwrap();
    assert!(c.options.exclusive_lower);
    assert!(c.options.reverse);
    assert_eq!(c.options.upper, vec![9]);
}

#[test]
fn txn_and_size() {
    let db = open_db();
    assert_eq!(db.txn().len(), 0);
    assert_eq!(db.approximate_size(), 0);
}
