use http_server::store::{Request, Step, Store};

#[test]
fn empty_store_has_nothing() {
    let s = Store::new();
    assert_eq!(s.get(&"a".to_string()), None);
}

#[test]
fn read_gives_back_last_write() {
    let mut s = Store::new();
    s.insert("1".to_string(), "2".to_string());
    s.insert("3".to_string(), "4".to_string());
    assert_eq!(s.get(&"1".to_string()), Some(&"2".to_string()));
    assert_eq!(s.get(&"3".to_string()), Some(&"4".to_string()));
    s.insert("1".to_string(), "five".to_string());
    assert_eq!(s.get(&"1".to_string()), Some(&"five".to_string()));
    assert_eq!(s.get(&"3".to_string()), Some(&"4".to_string()));
    assert_eq!(s.get(&"2".to_string()), None);
}

#[test]
fn many_keys() {
    let mut s = Store::new();
    for i in 0..10 {
        s.insert(i.to_string(), (i + 1).to_string());
    }
    for i in 0..10 {
        assert_eq!(s.get(&i.to_string()), Some(&(i + 1).to_string()));
    }
    assert_eq!(s.get(&"10".to_string()), None);
}

#[test]
fn serve_requests_in_order() {
    let mut s = Store::new();
    assert_eq!(s.serve(Request::Read("k".to_string())), Step::Missing);
    assert_eq!(s.serve(Request::Write("k".to_string(), "1".to_string())), Step::Continue);
    assert_eq!(s.serve(Request::Write("j".to_string(), "2".to_string())), Step::Continue);
    assert_eq!(s.serve(Request::Read("k".to_string())), Step::Answer("1".to_string()));
    assert_eq!(s.serve(Request::Write("k".to_string(), "3".to_string())), Step::Continue);
    assert_eq!(s.serve(Request::Read("k".to_string())), Step::Answer("3".to_string()));
    assert_eq!(s.serve(Request::Read("j".to_string())), Step::Answer("2".to_string()));
    assert_eq!(s.serve(Request::Shutdown), Step::Stop);
    assert_eq!(s.get(&"k".to_string()), Some(&"3".to_string()));
}
