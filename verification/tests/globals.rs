use gpui2::{AppContext, GlobalMap, TypeTag, Violation};

const THEME: TypeTag = TypeTag(100);
const SETTINGS: TypeTag = TypeTag(101);

#[test]
fn a_global_is_created_on_the_first_write_and_replaced_afterwards() {
    let mut globals: GlobalMap<&'static str> = GlobalMap::new();
    assert!(!globals.has(THEME));
    assert_eq!(globals.get(THEME), Err(Violation::GlobalMissing));
    assert_eq!(globals.set(THEME, "dark"), Ok(None));
    assert!(globals.has(THEME));
    assert_eq!(globals.get(THEME), Ok(&"dark"));
    assert_eq!(globals.set(THEME, "light"), Ok(Some("dark")));
    assert_eq!(globals.get(THEME), Ok(&"light"));
    assert!(!globals.has(SETTINGS));
}

#[test]
fn a_global_is_absent_while_it_is_read_or_updated() {
    let mut app: AppContext<i64, ()> = AppContext::new();
    app.set_global(THEME, 1).unwrap();
    let mut lease = app.lease_global(THEME).unwrap();
    assert_eq!(lease.global_type(), THEME);
    assert_eq!(*lease.global(), 1);
    assert!(app.globals().has(THEME));
    assert_eq!(app.globals().get(THEME), Err(Violation::GlobalAbsent));
    assert_eq!(app.lease_global(THEME).err(), Some(Violation::GlobalAbsent));
    assert_eq!(app.set_global(THEME, 9), Err(Violation::GlobalAbsent));
    *lease.global_mut() += 41;
    assert_eq!(app.end_global_lease(lease), Ok(()));
    assert_eq!(app.globals().get(THEME), Ok(&42));
}

#[test]
fn a_missing_global_cannot_be_taken_out() {
    let mut app: AppContext<i64, ()> = AppContext::new();
    assert_eq!(app.lease_global(SETTINGS).err(), Some(Violation::GlobalMissing));
    assert!(!app.globals().has(SETTINGS));
}

#[test]
fn a_global_is_put_back_once() {
    let mut a: GlobalMap<i64> = GlobalMap::new();
    let mut b: GlobalMap<i64> = GlobalMap::new();
    a.set(THEME, 1).unwrap();
    b.set(THEME, 2).unwrap();
    let lease = a.lease(THEME).unwrap();
    assert_eq!(b.end_lease(lease), Err(Violation::GlobalNotLeased));
    assert_eq!(b.get(THEME), Ok(&2));
    let mut c: GlobalMap<i64> = GlobalMap::new();
    let lease = b.lease(THEME).unwrap();
    assert_eq!(c.end_lease(lease), Err(Violation::GlobalMissing));
    assert!(!c.has(THEME));
}
