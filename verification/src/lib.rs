//! Contextual debugging toggles.
//!
//! A `Behold` handle decides, per call site, whether a diagnostic message
//! should be shown. Handles derived from one another share a single
//! lock-guarded store of named boolean flags; each handle carries its own
//! `active` flag and optional provenance tag.

use vstd::prelude::*;
use vstd::string::StringExecFns;

mod shared;
pub mod store;

use std::sync::Arc;

use vstd::rwlock::RwLock;

use crate::shared::WfPred;
use crate::store::ContextStore;

verus! {

/// A handle that decides whether diagnostic output should be produced.
///
/// Each handle holds a reference to a context store shared with every
/// handle derived from it, an instance-local `active` flag, and an
/// instance-local optional tag appended to shown messages. Derivation
/// (`tag`, `when`, `when_context`) always builds a new handle and never
/// changes the source handle or the store.
#[derive(Clone)]
pub struct Behold {
    /// The shared store of named flags, guarded by a lock whose
    /// invariant keeps the store well-formed.
    context: Arc<RwLock<ContextStore, WfPred>>,
    /// Whether this handle should produce output.
    speak_up: bool,
    /// Suffix appended to shown messages.
    tag: Option<String>,
}

impl Behold {
    /// Whether this handle produces output.
    pub closed spec fn active(&self) -> bool {
        self.speak_up
    }

    /// The tag appended to shown messages, if any.
    pub closed spec fn tag_view(&self) -> Option<Seq<char>> {
        match self.tag {
            Some(t) => Some(t@),
            None => None,
        }
    }

    /// The store this handle reads and writes.
    pub closed spec fn context_handle(&self) -> Arc<RwLock<ContextStore, WfPred>> {
        self.context
    }

    /// Both handles read and write the very same store.
    pub open spec fn shares_context(&self, other: &Behold) -> bool {
        self.context_handle() == other.context_handle()
    }

    /// Create a fresh handle: active, untagged, with a new, empty context
    /// store. Handles derived from it share that store.
    pub fn new() -> (r: Behold)
        ensures
            r.active(),
            r.tag_view() is None,
    {
        Behold { context: shared::new_shared(ContextStore::new()), speak_up: true, tag: None }
    }

    /// Set the flag `key` in the shared context store, overwriting any
    /// earlier value. The write is visible to every handle sharing this
    /// store, existing or derived later; another thread may overwrite it
    /// again at any time, so nothing more can be promised here.
    pub fn set_context(&self, key: &str, value: bool) {
        shared::set_in(&self.context, key, value);
    }

    /// A new handle that appends `tag` to shown messages; same store,
    /// same active flag, receiver untouched.
    pub fn tag(&self, tag: &str) -> (r: Behold)
        ensures
            r.active() == self.active(),
            r.tag_view() == Some(tag@),
            r.shares_context(self),
    {
        Behold {
            context: shared::share(&self.context),
            speak_up: self.speak_up,
            tag: Some(tag.to_owned()),
        }
    }

    /// A new handle whose active flag is `speak_up`; same store, same
    /// tag, receiver untouched.
    pub fn when(&self, speak_up: bool) -> (r: Behold)
        ensures
            r.active() == speak_up,
            r.tag_view() == self.tag_view(),
            r.shares_context(self),
    {
        Behold { context: shared::share(&self.context), speak_up, tag: clone_tag(&self.tag) }
    }

    /// A new handle whose active flag is the flag currently stored under
    /// `key` in the shared store, where a key never set reads as `false`;
    /// same store, same tag, receiver untouched. The flag read is
    /// whatever the store holds at this moment: a concurrent writer may
    /// change it before or after, so the result's active flag is not
    /// related here to any one store value.
    pub fn when_context(&self, key: &str) -> (r: Behold)
        ensures
            r.tag_view() == self.tag_view(),
            r.shares_context(self),
    {
        let active = shared::get_in(&self.context, key);
        self.when(active)
    }

    /// The line that showing `msg` through this handle produces: the
    /// message itself when the handle is active and untagged, the message
    /// with `, tag` appended when it is active and tagged, and nothing at
    /// all when it is inactive.
    pub fn render(&self, msg: &str) -> (r: Option<String>)
        ensures
            r is Some <==> self.active(),
            r matches Some(line) ==> line@ == shown_line(self.tag_view(), msg@),
    {
        if self.speak_up {
            match &self.tag {
                Some(t) => Some(msg.to_owned().concat(", ").concat(t.as_str())),
                None => Some(msg.to_owned()),
            }
        } else {
            None
        }
    }

    /// Run `f` if this handle is active; do nothing at all otherwise.
    pub fn call<F: Fn() -> ()>(&self, f: &F)
        requires
            self.active() ==> call_requires(*f, ()),
        ensures
            self.active() ==> call_ensures(*f, (), ()),
    {
        if self.speak_up {
            f();
        }
    }
}

/// The text shown for a message under a tag: the message alone without a
/// tag, and `msg, tag` with one.
pub open spec fn shown_line(tag: Option<Seq<char>>, msg: Seq<char>) -> Seq<char> {
    match tag {
        Some(t) => msg + ", "@ + t,
        None => msg,
    }
}

/// Convenience function for quickly constructing a fresh handle.
pub fn behold() -> (r: Behold)
    ensures
        r.active(),
        r.tag_view() is None,
{
    Behold::new()
}

/// Law: a key never set reads as `false`, so a handle whose active flag
/// was taken from that key — as `when_context` takes it — shows nothing,
/// whatever its tag and whatever the message.
pub proof fn lemma_unset_flag_is_silent(m: Map<Seq<char>, bool>, key: Seq<char>, b: Behold)
    requires
        !m.contains_key(key),
        b.active() == store::flag_of(m, key),
    ensures
        !b.active(),
{
}

/// Law: after `key -> value` is written to a store, a handle whose active
/// flag was taken from that key — as `when_context` takes it, from any
/// handle sharing the store — is active exactly when `value` holds.
pub proof fn lemma_set_flag_visible(
    m: Map<Seq<char>, bool>,
    key: Seq<char>,
    value: bool,
    b: Behold,
)
    requires
        b.active() == store::flag_of(m.insert(key, value), key),
    ensures
        b.active() == value,
{
}

/// Law: a handle's show behaviour is fixed by its own active flag and tag
/// alone — never by the shared store or by any other handle. Two handles
/// agreeing on both fields show the same line for every message; and since
/// `tag`, `when` and `when_context` take their receiver by shared
/// reference, deriving from a handle leaves its fields, and so its
/// behaviour, untouched.
pub proof fn lemma_show_behaviour_is_local(a: Behold, b: Behold, msg: Seq<char>)
    requires
        a.active() == b.active(),
        a.tag_view() == b.tag_view(),
    ensures
        shown_line(a.tag_view(), msg) == shown_line(b.tag_view(), msg),
{
}

fn clone_tag(tag: &Option<String>) -> (r: Option<String>)
    ensures
        r == *tag,
{
    match tag {
        Some(t) => Some(t.clone()),
        None => None,
    }
}

} // verus!
