//! The ordered list of lexer actions collected along an accepted path.
//! Position-dependent actions are anchored to an input offset before the
//! match is committed, so they run at the position they were collected at.

use vstd::prelude::*;
use crate::lexer_action::LexerAction;

verus! {

/// An action together with the input offset (relative to the token start) it
/// is anchored to; a negative offset means not anchored.
#[derive(Clone, Copy, Debug, PartialEq, Eq, Structural)]
pub struct LexerIndexedAction {
    pub offset: isize,
    pub action: LexerAction,
}

/// An ordered list of anchored lexer actions.
#[derive(Debug)]
pub struct LexerActionExecutor {
    pub actions: Vec<LexerIndexedAction>,
}

impl LexerActionExecutor {
    pub fn new() -> (r: LexerActionExecutor)
        ensures
            r.actions@.len() == 0,
    {
        LexerActionExecutor { actions: Vec::new() }
    }

    /// A copy of `old_exec` (empty if none) with `action` appended,
    /// unanchored.
    pub fn new_copy_append(old_exec: Option<&LexerActionExecutor>, action: LexerAction) -> (r:
        LexerActionExecutor)
        ensures
            match old_exec {
                Option::Some(e) => r.actions@.len() == e.actions@.len() + 1 && forall|k: int|
                    0 <= k < e.actions@.len() ==> (#[trigger] r.actions@[k]) == e.actions@[k],
                Option::None => r.actions@.len() == 1,
            },
            r.actions@.last().offset == -1,
            r.actions@.last().action == action,
    {
        let mut actions: Vec<LexerIndexedAction> = Vec::new();
        match old_exec {
            Some(e) => {
                let n = e.actions.len();
                let mut i: usize = 0;
                while i < n
                    invariant
                        n == e.actions@.len(),
                        0 <= i <= n,
                        actions@ == e.actions@.subrange(0, i as int),
                    decreases n - i,
                {
                    actions.push(e.actions[i]);
                    i += 1;
                    proof {
                        assert(actions@ =~= e.actions@.subrange(0, i as int));
                    }
                }
                proof {
                    assert(actions@ =~= e.actions@);
                }
            },
            None => {},
        }
        actions.push(LexerIndexedAction { offset: -1, action });
        LexerActionExecutor { actions }
    }

    /// Anchors every position-dependent action that is not yet anchored to
    /// `offset`; all other actions are kept as they are.
    pub fn fix_offset_before_match(&self, offset: isize) -> (r: LexerActionExecutor)
        ensures
            r.actions@.len() == self.actions@.len(),
            forall|i: int|
                0 <= i < self.actions@.len() ==> (#[trigger] r.actions@[i]) == (
                if (self.actions@[i].action matches LexerAction::Custom { .. })
                    && self.actions@[i].offset < 0 {
                    LexerIndexedAction { offset, action: self.actions@[i].action }
                } else {
                    self.actions@[i]
                }),
    {
        let n = self.actions.len();
        let mut actions: Vec<LexerIndexedAction> = Vec::new();
        let mut i: usize = 0;
        while i < n
            invariant
                n == self.actions@.len(),
                0 <= i <= n,
                actions@.len() == i,
                forall|k: int|
                    0 <= k < i ==> (#[trigger] actions@[k]) == (
                    if (self.actions@[k].action matches LexerAction::Custom { .. })
                        && self.actions@[k].offset < 0 {
                        LexerIndexedAction { offset, action: self.actions@[k].action }
                    } else {
                        self.actions@[k]
                    }),
            decreases n - i,
        {
            let a = self.actions[i];
            if a.action.is_position_dependent() && a.offset < 0 {
                actions.push(LexerIndexedAction { offset, action: a.action });
            } else {
                actions.push(a);
            }
            i += 1;
        }
        LexerActionExecutor { actions }
    }

    pub fn length(&self) -> (r: usize)
        ensures
            r == self.actions@.len(),
    {
        self.actions.len()
    }

    /// Exact comparison of the stored action lists.
    pub fn equals(&self, other: &LexerActionExecutor) -> (r: bool)
        ensures
            r == (self.actions@ == other.actions@),
    {
        let n = self.actions.len();
        if other.actions.len() != n {
            return false;
        }
        let mut i: usize = 0;
        while i < n
            invariant
                n == self.actions@.len(),
                n == other.actions@.len(),
                0 <= i <= n,
                forall|k: int| 0 <= k < i ==> (#[trigger] self.actions@[k]) == other.actions@[k],
            decreases n - i,
        {
            let a = self.actions[i];
            let b = other.actions[i];
            if !(a == b) {
                return false;
            }
            i += 1;
        }
        proof {
            assert(self.actions@ =~= other.actions@);
        }
        true
    }

    /// An exact copy.
    pub fn clone_exec(&self) -> (r: LexerActionExecutor)
        ensures
            r.actions@ == self.actions@,
    {
        let n = self.actions.len();
        let mut actions: Vec<LexerIndexedAction> = Vec::new();
        let mut i: usize = 0;
        while i < n
            invariant
                n == self.actions@.len(),
                0 <= i <= n,
                actions@ == self.actions@.subrange(0, i as int),
            decreases n - i,
        {
            actions.push(self.actions[i]);
            i += 1;
            proof {
                assert(actions@ =~= self.actions@.subrange(0, i as int));
            }
        }
        proof {
            assert(actions@ =~= self.actions@);
        }
        LexerActionExecutor { actions }
    }
}

} // verus!
