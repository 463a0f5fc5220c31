use behold::behold;
use behold::store::ContextStore;
use behold::Behold;
use std::cell::Cell;

#[test]
fn fresh_handle_shows_plain_message() {
    let b = behold();
    assert_eq!(b.render("Hello world!"), Some("Hello world!".to_string()));
}

#[test]
fn tagged_handle_appends_tag() {
    let b = behold().tag("apples");
    assert_eq!(b.render("Hello world!"), Some("Hello world!, apples".to_string()));
}

#[test]
fn inactive_handle_shows_nothing() {
    let b = behold().when(false);
    assert_eq!(b.render("Hello world!"), None);
    let t = behold().tag("apples").when(false);
    assert_eq!(t.render("anything at all"), None);
}

#[test]
fn unset_key_is_silent() {
    let b = behold();
    let q = b.when_context("never-set");
    assert_eq!(q.render("Hello world!"), None);
}

#[test]
fn set_flag_is_seen_by_derived_handles() {
    let b = behold();
    b.set_context("do-it", true);
    assert_eq!(b.when_context("do-it").render("x"), Some("x".to_string()));
    let other = b.when(false).tag("apples");
    assert_eq!(
        other.when_context("do-it").render("x"),
        Some("x, apples".to_string())
    );
    b.set_context("do-it", false);
    assert_eq!(b.when_context("do-it").render("x"), None);
}

#[test]
fn derivation_leaves_receiver_unchanged() {
    let a = behold().tag("keep");
    let _ = a.tag("other");
    let _ = a.when(false);
    let _ = a.when_context("whatever");
    assert_eq!(a.render("msg"), Some("msg, keep".to_string()));
}

#[test]
fn distinct_keys_do_not_interfere() {
    let b = behold();
    b.set_context("one", true);
    b.set_context("two", false);
    assert_eq!(b.when_context("one").render("m"), Some("m".to_string()));
    assert_eq!(b.when_context("two").render("m"), None);
    b.set_context("one", false);
    b.set_context("two", true);
    assert_eq!(b.when_context("one").render("m"), None);
    assert_eq!(b.when_context("two").render("m"), Some("m".to_string()));
}

#[test]
fn end_to_end_context_toggle() {
    let b = behold();
    assert_eq!(b.when_context("do-it").render("Hello world!"), None);
    b.set_context("do-it", true);
    assert_eq!(
        b.when_context("do-it").render("Hello world!"),
        Some("Hello world!".to_string())
    );
}

#[test]
fn call_runs_exactly_when_active() {
    let count = Cell::new(0u32);
    let bump = || count.set(count.get() + 1);
    behold().when(false).call(&bump);
    assert_eq!(count.get(), 0);
    behold().when(true).call(&bump);
    assert_eq!(count.get(), 1);
    behold().tag("apples").call(&bump);
    assert_eq!(count.get(), 2);
}

#[test]
fn store_lookup_and_overwrite() {
    let mut s = ContextStore::new();
    assert_eq!(s.lookup("k"), false);
    s.set("k", true);
    assert_eq!(s.lookup("k"), true);
    s.set("k", false);
    assert_eq!(s.lookup("k"), false);
    s.set("other", true);
    assert_eq!(s.lookup("k"), false);
    assert_eq!(s.lookup("other"), true);
}

#[test]
fn fresh_handles_have_separate_stores() {
    let a = behold();
    let b = Behold::new();
    a.set_context("k", true);
    assert_eq!(b.when_context("k").render("m"), None);
    assert_eq!(a.when_context("k").render("m"), Some("m".to_string()));
}

#[test]
fn clones_share_the_store() {
    let a = behold();
    let c = a.clone();
    a.set_context("k", true);
    assert_eq!(c.when_context("k").render("m"), Some("m".to_string()));
}

#[test]
fn empty_message_and_empty_tag() {
    let b = behold();
    assert_eq!(b.render(""), Some("".to_string()));
    assert_eq!(b.tag("").render(""), Some(", ".to_string()));
    assert_eq!(b.tag("").render("msg"), Some("msg, ".to_string()));
}

#[test]
fn later_tag_replaces_earlier_tag() {
    let b = behold().tag("first").tag("second");
    assert_eq!(b.render("m"), Some("m, second".to_string()));
}
