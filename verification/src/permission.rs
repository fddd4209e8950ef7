//! The permission-gating engine: per-tool approval decisions.
//!
//! A decision is derived from an explicit user override (highest
//! priority), then from the mode-derived default, falling back to
//! requiring confirmation. `decide` is a pure function of the stored
//! overrides, the mode and the tool identifier; an update to the
//! overrides takes effect only for decisions made after it.

use vstd::prelude::*;

verus! {

/// Whether one tool call may proceed unattended.
#[derive(Clone, Copy, Debug, PartialEq, Eq, Structural)]
pub enum PermissionDecision {
    /// Execute without asking.
    Auto,
    /// Surface a confirmation step first.
    AskBefore,
    /// Refuse and report.
    Never,
}

/// The coarse, session-wide approval mode.
#[derive(Clone, Copy, Debug, PartialEq, Eq, Structural)]
pub enum PermissionMode {
    /// Every tool executes without asking.
    Auto,
    /// Every tool asks first.
    Approve,
    /// A per-tool heuristic default decides.
    SmartApprove,
}

impl DeepView for PermissionDecision {
    type V = PermissionDecision;

    open spec fn deep_view(&self) -> PermissionDecision {
        *self
    }
}

/// The level stored for `key`, if any; the earliest entry wins.
pub open spec fn lookup_level(
    entries: Seq<(Seq<char>, PermissionDecision)>,
    key: Seq<char>,
) -> Option<PermissionDecision>
    decreases entries.len(),
{
    if entries.len() == 0 {
        None
    } else if entries[0].0 == key {
        Some(entries[0].1)
    } else {
        lookup_level(entries.drop_first(), key)
    }
}

/// The decision for `tool` given stored overrides, stored smart-approve
/// defaults, and the mode: an override wins; otherwise the mode's default;
/// otherwise ask.
pub open spec fn spec_decide(
    overrides: Seq<(Seq<char>, PermissionDecision)>,
    smart: Seq<(Seq<char>, PermissionDecision)>,
    tool: Seq<char>,
    mode: PermissionMode,
) -> PermissionDecision {
    match lookup_level(overrides, tool) {
        Some(level) => level,
        None => match mode {
            PermissionMode::Auto => PermissionDecision::Auto,
            PermissionMode::Approve => PermissionDecision::AskBefore,
            PermissionMode::SmartApprove => match lookup_level(smart, tool) {
                Some(level) => level,
                None => PermissionDecision::AskBefore,
            },
        },
    }
}

/// Stored per-tool overrides and heuristic defaults.
pub struct PermissionManager {
    pub overrides: Vec<(String, PermissionDecision)>,
    pub smart_defaults: Vec<(String, PermissionDecision)>,
}

impl PermissionManager {
    /// The model of the stored overrides.
    pub open spec fn overrides_view(&self) -> Seq<(Seq<char>, PermissionDecision)> {
        self.overrides.deep_view()
    }

    /// The model of the stored smart-approve defaults.
    pub open spec fn smart_view(&self) -> Seq<(Seq<char>, PermissionDecision)> {
        self.smart_defaults.deep_view()
    }

    /// A manager with no overrides and no smart-approve defaults.
    pub fn new() -> (r: PermissionManager)
        ensures
            r.overrides_view() == Seq::<(Seq<char>, PermissionDecision)>::empty(),
            r.smart_view() == Seq::<(Seq<char>, PermissionDecision)>::empty(),
    {
        let r = PermissionManager { overrides: Vec::new(), smart_defaults: Vec::new() };
        proof {
            assert(r.overrides_view() =~= Seq::<(Seq<char>, PermissionDecision)>::empty());
            assert(r.smart_view() =~= Seq::<(Seq<char>, PermissionDecision)>::empty());
        }
        r
    }

    /// A manager with the given smart-approve defaults and no overrides.
    pub fn with_smart_defaults(smart_defaults: Vec<(String, PermissionDecision)>) -> (r:
        PermissionManager)
        ensures
            r.overrides_view() == Seq::<(Seq<char>, PermissionDecision)>::empty(),
            r.smart_view() == smart_defaults.deep_view(),
    {
        let r = PermissionManager { overrides: Vec::new(), smart_defaults };
        proof {
            assert(r.overrides_view() =~= Seq::<(Seq<char>, PermissionDecision)>::empty());
        }
        r
    }

    /// The stored override for `tool`, if any.
    pub fn get_user_permission(&self, tool: &String) -> (r: Option<PermissionDecision>)
        ensures
            r == lookup_level(self.overrides_view(), tool@),
    {
        lookup_in(&self.overrides, tool)
    }

    /// The stored smart-approve default for `tool`, if any.
    pub fn get_smart_approve_permission(&self, tool: &String) -> (r: Option<PermissionDecision>)
        ensures
            r == lookup_level(self.smart_view(), tool@),
    {
        lookup_in(&self.smart_defaults, tool)
    }

    /// Decide whether `tool` may run unattended under `mode`. Pure: two
    /// calls with the same stored overrides and mode return the same
    /// decision.
    pub fn decide(&self, tool: &String, mode: PermissionMode) -> (d: PermissionDecision)
        ensures
            d == spec_decide(self.overrides_view(), self.smart_view(), tool@, mode),
    {
        match self.get_user_permission(tool) {
            Some(level) => level,
            None => match mode {
                PermissionMode::Auto => PermissionDecision::Auto,
                PermissionMode::Approve => PermissionDecision::AskBefore,
                PermissionMode::SmartApprove => match self.get_smart_approve_permission(tool) {
                    Some(level) => level,
                    None => PermissionDecision::AskBefore,
                },
            },
        }
    }

    /// Persist a user decision for one tool. Only decisions made after
    /// this call see the new level; decisions for other tools are
    /// unaffected (see `lemma_set_override_effect`).
    pub fn set_override(&mut self, tool: String, level: PermissionDecision)
        ensures
            final(self).overrides_view() == seq![(tool@, level)] + old(self).overrides_view(),
            final(self).smart_view() == old(self).smart_view(),
    {
        self.overrides.insert(0, (tool, level));
        proof {
            assert(self.overrides_view() =~= seq![(tool@, level)] + old(self).overrides_view());
        }
    }
}

/// The override entries with every entry for `key` dropped.
pub open spec fn remove_key(
    entries: Seq<(Seq<char>, PermissionDecision)>,
    key: Seq<char>,
) -> Seq<(Seq<char>, PermissionDecision)>
    decreases entries.len(),
{
    if entries.len() == 0 {
        Seq::empty()
    } else {
        let rest = remove_key(entries.drop_first(), key);
        if entries[0].0 == key {
            rest
        } else {
            seq![entries[0]] + rest
        }
    }
}

/// Dropping a key's entries clears its lookup and no other.
pub proof fn lemma_lookup_remove_key(
    entries: Seq<(Seq<char>, PermissionDecision)>,
    key: Seq<char>,
    other: Seq<char>,
)
    ensures
        lookup_level(remove_key(entries, key), key) is None,
        other != key ==> lookup_level(remove_key(entries, key), other) == lookup_level(
            entries,
            other,
        ),
    decreases entries.len(),
{
    if entries.len() == 0 {
    } else {
        lemma_lookup_remove_key(entries.drop_first(), key, other);
        if entries[0].0 == key {
        } else {
            let kept = seq![entries[0]] + remove_key(entries.drop_first(), key);
            assert(kept[0] == entries[0]);
            assert(kept.drop_first() =~= remove_key(entries.drop_first(), key));
        }
    }
}

impl PermissionManager {
    /// Drop the stored override for one tool; every other tool's stored
    /// override is untouched (see `lemma_lookup_remove_key`).
    pub fn clear_override(&mut self, tool: &String)
        ensures
            final(self).overrides_view() == remove_key(old(self).overrides_view(), tool@),
            final(self).smart_view() == old(self).smart_view(),
    {
        let n = self.overrides.len();
        let mut kept: Vec<(String, PermissionDecision)> = Vec::new();
        let mut i: usize = 0;
        proof {
            assert(self.overrides.deep_view().skip(0) =~= self.overrides.deep_view());
        }
        while i < n
            invariant
                i <= n,
                n == self.overrides@.len(),
                self.overrides == old(self).overrides,
                self.overrides.deep_view().len() == n,
                remove_key(self.overrides.deep_view(), tool@) == kept.deep_view() + remove_key(
                    self.overrides.deep_view().skip(i as int),
                    tool@,
                ),
            decreases n - i,
        {
            proof {
                assert(self.overrides.deep_view().skip(i as int)[0] == self.overrides.deep_view()[
                    i as int
                ]);
                assert(self.overrides.deep_view().skip(i as int).drop_first()
                    =~= self.overrides.deep_view().skip(i as int + 1));
            }
            let ghost prev = kept.deep_view();
            if !(self.overrides[i].0 == *tool) {
                kept.push((self.overrides[i].0.clone(), self.overrides[i].1));
                proof {
                    assert(kept.deep_view() =~= prev + seq![
                        self.overrides.deep_view()[i as int],
                    ]);
                    assert(prev + (seq![self.overrides.deep_view()[i as int]] + remove_key(
                        self.overrides.deep_view().skip(i as int + 1),
                        tool@,
                    )) =~= kept.deep_view() + remove_key(
                        self.overrides.deep_view().skip(i as int + 1),
                        tool@,
                    ));
                }
            }
            i = i + 1;
        }
        proof {
            assert(self.overrides.deep_view().skip(n as int) =~= Seq::<(
                Seq<char>,
                PermissionDecision,
            )>::empty());
            assert(remove_key(self.overrides.deep_view(), tool@) =~= kept.deep_view());
        }
        self.overrides = kept;
    }
}

fn lookup_in(entries: &Vec<(String, PermissionDecision)>, key: &String) -> (r: Option<
    PermissionDecision,
>)
    ensures
        r == lookup_level(entries.deep_view(), key@),
{
    let n = entries.len();
    let mut i: usize = 0;
    proof {
        assert(entries.deep_view().skip(0) =~= entries.deep_view());
    }
    while i < n
        invariant
            i <= n,
            n == entries@.len(),
            entries.deep_view().len() == n,
            lookup_level(entries.deep_view(), key@) == lookup_level(
                entries.deep_view().skip(i as int),
                key@,
            ),
        decreases n - i,
    {
        proof {
            assert(entries.deep_view().skip(i as int)[0] == entries.deep_view()[i as int]);
            assert(entries.deep_view().skip(i as int).drop_first() =~= entries.deep_view().skip(
                i as int + 1,
            ));
        }
        if entries[i].0 == *key {
            return Some(entries[i].1);
        }
        i = i + 1;
    }
    proof {
        assert(entries.deep_view().skip(n as int) =~= Seq::<(
            Seq<char>,
            PermissionDecision,
        )>::empty());
    }
    None
}

/// Setting an override changes only subsequent decisions for that tool:
/// after the update the overridden tool decides to exactly the new level
/// under every mode, and every other tool decides as before.
pub proof fn lemma_set_override_effect(
    overrides: Seq<(Seq<char>, PermissionDecision)>,
    smart: Seq<(Seq<char>, PermissionDecision)>,
    tool: Seq<char>,
    level: PermissionDecision,
    other: Seq<char>,
    mode: PermissionMode,
)
    ensures
        spec_decide(seq![(tool, level)] + overrides, smart, tool, mode) == level,
        other != tool ==> spec_decide(seq![(tool, level)] + overrides, smart, other, mode)
            == spec_decide(overrides, smart, other, mode),
{
    let updated = seq![(tool, level)] + overrides;
    assert(updated[0] == (tool, level));
    assert(updated.drop_first() =~= overrides);
}

} // verus!
