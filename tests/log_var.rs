use fast_stm::{LogVar, Payload, TVar};

fn snapshot(v: i32) -> Payload {
    TVar::new(v).read_ref_atomic()
}

#[test]
fn test_write_obsolete_ignore() {
    let t = LogVar::Write(snapshot(42)).obsolete();
    assert!(t.is_none());
}

#[test]
fn read_upgrades_obsolete_read() {
    let v7 = snapshot(7);
    let mut v = LogVar::ReadObsolete(v7.share());
    let p = v.read();
    assert!(p.same(&v7));
    assert!(matches!(v, LogVar::Read(_)));
}

#[test]
fn read_upgrades_obsolete_read_write() {
    let w = snapshot(2);
    let mut v = LogVar::ReadObsoleteWrite(snapshot(1), w.share());
    let p = v.read();
    assert!(p.same(&w));
    assert!(matches!(v, LogVar::ReadWrite(_, _)));
}

#[test]
fn write_after_read_becomes_read_write() {
    let original = snapshot(1);
    let five = snapshot(5);
    let mut v = LogVar::Read(original.share());
    v.write(five.share());
    match &v {
        LogVar::ReadWrite(r, w) => {
            assert!(r.same(&original));
            assert!(w.same(&five));
        }
        _ => panic!("expected a read-write entry"),
    }
    assert!(v.read().same(&five));
}

#[test]
fn write_after_obsolete_keeps_original() {
    let original = snapshot(1);
    let mut v = LogVar::ReadObsolete(original.share());
    v.write(snapshot(9));
    match v.duplicate().into_read_value() {
        Some(r) => assert!(r.same(&original)),
        None => panic!("the original read must stay"),
    }
    assert!(matches!(v, LogVar::ReadObsoleteWrite(_, _)));
}

#[test]
fn write_replaces_write() {
    let three = snapshot(3);
    let mut v = LogVar::Write(snapshot(1));
    v.write(three.share());
    assert!(matches!(v, LogVar::Write(_)));
    assert!(v.read().same(&three));
}

#[test]
fn obsolete_keeps_original_read() {
    let original = snapshot(4);
    let t = LogVar::ReadWrite(original.share(), snapshot(8)).obsolete();
    match t {
        Some(LogVar::ReadObsolete(r)) => assert!(r.same(&original)),
        _ => panic!("expected an obsolete read"),
    }
}

#[test]
fn share_is_same_fresh_is_not() {
    let a = snapshot(1);
    let b = a.share();
    let c = snapshot(1);
    assert!(a.same(&b));
    assert!(!a.same(&c));
}
