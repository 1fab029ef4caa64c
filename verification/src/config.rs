//! Parsed, immutable description of a vector cursor theme: which cursor
//! identities exist, how each one is rendered, and which transitions are
//! played between them.
//!
//! The theme document itself is TOML; deserializing it is left to the
//! caller, which hands the parsed entries in as plain values.  Lookups on
//! the configuration are pure functions over those entries.

use vstd::prelude::*;
use vstd::string::StringExecFns;

verus! {

/// Renderable source format of one cursor definition.
#[derive(Debug, Clone, Copy, PartialEq, Eq, Structural)]
pub enum CursorFormat {
    Svg,
    Lottie,
}

/// Visual style of a transition between two cursor identities.
#[derive(Debug, Clone, Copy, PartialEq, Eq, Structural)]
pub enum TransitionType {
    Morph,
    CrossFade,
    Transform,
    Lottie,
}

/// Easing curve applied to the raw progress of a transition.
#[derive(Debug, Clone, Copy, PartialEq, Eq, Structural)]
pub enum EasingFunction {
    Linear,
    EaseIn,
    EaseOut,
    EaseInOut,
    EaseInQuad,
    EaseOutQuad,
    EaseInOutQuad,
    Elastic,
}

/// One cursor identity as declared by the theme document.
#[derive(Debug, Clone)]
pub struct CursorDefinition {
    pub format: CursorFormat,
    /// Source file of the cursor, relative to the theme directory.
    pub file: String,
    /// Optional hotspot in logical pixels; the origin when absent.
    pub hotspot: Option<(i32, i32)>,
    /// Optional playback policy: "once", "loop" or "bounce".
    pub loop_mode: Option<String>,
}

/// One transition between two cursor identities.
#[derive(Debug, Clone)]
pub struct TransitionConfig {
    pub transition_type: TransitionType,
    pub duration_ms: u32,
    pub easing: EasingFunction,
    pub file: Option<String>,
}

/// Default transition style when the document omits one.
pub fn default_transition_type() -> (r: TransitionType)
    ensures
        r == TransitionType::Morph,
{
    TransitionType::Morph
}

/// Default transition duration in milliseconds when the document omits one.
pub fn default_duration() -> (r: u32)
    ensures
        r == 200u32,
{
    200
}

/// Default easing curve when the document omits one.
pub fn default_easing() -> (r: EasingFunction)
    ensures
        r == EasingFunction::EaseInOut,
{
    EasingFunction::EaseInOut
}

impl TransitionConfig {
    /// Builds a transition entry from the document's optional fields,
    /// filling each absent field with its documented default.
    pub fn from_parts(
        transition_type: Option<TransitionType>,
        duration_ms: Option<u32>,
        easing: Option<EasingFunction>,
        file: Option<String>,
    ) -> (r: TransitionConfig)
        ensures
            r.transition_type == if transition_type is Some {
                transition_type->0
            } else {
                TransitionType::Morph
            },
            r.duration_ms == if duration_ms is Some {
                duration_ms->0
            } else {
                200u32
            },
            r.easing == if easing is Some {
                easing->0
            } else {
                EasingFunction::EaseInOut
            },
            r.file == file,
    {
        TransitionConfig {
            transition_type: match transition_type {
                Some(t) => t,
                None => default_transition_type(),
            },
            duration_ms: match duration_ms {
                Some(d) => d,
                None => default_duration(),
            },
            easing: match easing {
                Some(e) => e,
                None => default_easing(),
            },
            file,
        }
    }
}

/// First entry of `s` whose key reads `key`, if any.
pub open spec fn assoc_find<V>(s: Seq<(String, V)>, key: Seq<char>) -> Option<V>
    decreases s.len(),
{
    if s.len() == 0 {
        None
    } else if s[0].0@ == key {
        Some(s[0].1)
    } else {
        assoc_find(s.drop_first(), key)
    }
}

proof fn lemma_assoc_find_step<V>(s: Seq<(String, V)>, key: Seq<char>, i: int)
    requires
        0 <= i < s.len(),
        s[i].0@ != key,
    ensures
        assoc_find(s.subrange(i, s.len() as int), key) == assoc_find(
            s.subrange(i + 1, s.len() as int),
            key,
        ),
{
    let tail = s.subrange(i, s.len() as int);
    assert(tail[0] == s[i]);
    assert(tail.drop_first() =~= s.subrange(i + 1, s.len() as int));
}

proof fn lemma_assoc_find_hit<V>(s: Seq<(String, V)>, key: Seq<char>, i: int)
    requires
        0 <= i < s.len(),
        s[i].0@ == key,
    ensures
        assoc_find(s.subrange(i, s.len() as int), key) == Some(s[i].1),
{
    let tail = s.subrange(i, s.len() as int);
    assert(tail[0] == s[i]);
}

/// Parsed, immutable description of the available cursor identities and of
/// the transitions between them.
///
/// `cursors` maps a cursor id to its definition; `transitions` is keyed by
/// the literal concatenation of the two cursor ids joined by `->`.  The
/// theme document guarantees unique keys (TOML rejects duplicate table
/// keys); lookups return the first entry with the asked-for key.
#[derive(Debug, Clone)]
pub struct CursorThemeConfig {
    pub cursors: Vec<(String, CursorDefinition)>,
    pub transitions: Vec<(String, TransitionConfig)>,
}

impl CursorThemeConfig {
    /// Definition recorded for `id`, as a mathematical lookup.
    pub open spec fn spec_cursor(self, id: Seq<char>) -> Option<CursorDefinition> {
        assoc_find(self.cursors@, id)
    }

    /// Key under which the transition from `from` to `to` is recorded.
    pub open spec fn spec_transition_key(from: Seq<char>, to: Seq<char>) -> Seq<char> {
        from + "->"@ + to
    }

    /// Transition recorded from `from` to `to`, as a mathematical lookup.
    pub open spec fn spec_transition(self, from: Seq<char>, to: Seq<char>) -> Option<
        TransitionConfig,
    > {
        assoc_find(self.transitions@, Self::spec_transition_key(from, to))
    }

    /// Builds a configuration from the document's entries, in document
    /// order.
    pub fn new(
        cursors: Vec<(String, CursorDefinition)>,
        transitions: Vec<(String, TransitionConfig)>,
    ) -> (r: CursorThemeConfig)
        ensures
            r.cursors == cursors,
            r.transitions == transitions,
    {
        CursorThemeConfig { cursors, transitions }
    }

    /// Looks the cursor id up in the theme; `None` when the theme does not
    /// define it.
    pub fn get_cursor(&self, cursor_id: &str) -> (r: Option<&CursorDefinition>)
        ensures
            match r {
                Some(d) => self.spec_cursor(cursor_id@) == Some(*d),
                None => self.spec_cursor(cursor_id@) is None,
            },
    {
        let needle = cursor_id.to_owned();
        let n = self.cursors.len();
        proof {
            assert(self.cursors@.subrange(0, n as int) =~= self.cursors@);
        }
        let mut i: usize = 0;
        while i < n
            invariant
                needle@ == cursor_id@,
                n == self.cursors@.len(),
                0 <= i <= n,
                assoc_find(self.cursors@.subrange(i as int, n as int), cursor_id@)
                    == self.spec_cursor(cursor_id@),
            decreases n - i,
        {
            let p = &self.cursors[i];
            if p.0 == needle {
                proof {
                    lemma_assoc_find_hit(self.cursors@, cursor_id@, i as int);
                }
                return Some(&p.1);
            }
            proof {
                lemma_assoc_find_step(self.cursors@, cursor_id@, i as int);
            }
            i = i + 1;
        }
        proof {
            assert(self.cursors@.subrange(n as int, n as int) =~= Seq::<
                (String, CursorDefinition),
            >::empty());
        }
        None
    }

    /// Looks the transition from `from_id` to `to_id` up in the theme;
    /// `None` when the theme does not define it.
    pub fn get_transition(&self, from_id: &str, to_id: &str) -> (r: Option<&TransitionConfig>)
        ensures
            match r {
                Some(t) => self.spec_transition(from_id@, to_id@) == Some(*t),
                None => self.spec_transition(from_id@, to_id@) is None,
            },
    {
        let mut key = from_id.to_owned();
        key.append("->");
        key.append(to_id);
        let ghost k = Self::spec_transition_key(from_id@, to_id@);
        assert(key@ == k);
        let n = self.transitions.len();
        proof {
            assert(self.transitions@.subrange(0, n as int) =~= self.transitions@);
        }
        let mut i: usize = 0;
        while i < n
            invariant
                n == self.transitions@.len(),
                0 <= i <= n,
                key@ == k,
                assoc_find(self.transitions@.subrange(i as int, n as int), k)
                    == self.spec_transition(from_id@, to_id@),
            decreases n - i,
        {
            let p = &self.transitions[i];
            if p.0 == key {
                proof {
                    lemma_assoc_find_hit(self.transitions@, k, i as int);
                }
                return Some(&p.1);
            }
            proof {
                lemma_assoc_find_step(self.transitions@, k, i as int);
            }
            i = i + 1;
        }
        proof {
            assert(self.transitions@.subrange(n as int, n as int) =~= Seq::<
                (String, TransitionConfig),
            >::empty());
        }
        None
    }
}

} // verus!
