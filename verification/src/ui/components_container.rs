use vstd::prelude::*;

verus! {

/// Wraps a (possibly negative) index onto a container of `len` components:
/// the Euclidean remainder of `index` by `len`.
pub open spec fn wrapped_index(len: int, index: int) -> int {
    index % len
}

proof fn lemma_truncated_rem_negative(index: int, l: int, rem: int)
    requires
        index < 0,
        l > 0,
        rem == -((-index) % l),
    ensures
        -l < rem <= 0,
        (l + rem) % l == index % l,
{
    let k = -index;
    let m = k % l;
    let q = k / l;
    assert(k == q * l + m) by (nonlinear_arith)
        requires q == k / l, m == k % l, l > 0;
    assert(l + rem == l - m);
    assert(index == (-q - 1) * l + (l - m)) by (nonlinear_arith)
        requires k == q * l + m, index == -k;
    vstd::arithmetic::div_mod::lemma_mod_multiples_vanish(-q - 1, l - m, l);
}

/// Wraps `index` onto `0..len`, so that stepping past either end of the
/// container comes back in at the other end.
pub fn bounded_index(len: usize, index: i32) -> (r: i32)
    requires
        0 < len <= i32::MAX,
    ensures
        r == wrapped_index(len as int, index as int),
        0 <= r < len,
{
    let l = len as i32;
    let index = if index < 0 {
        let rem = index % l;
        proof {
            lemma_truncated_rem_negative(index as int, l as int, rem as int);
        }
        l + rem
    } else {
        index
    };
    index % l
}

}

verus! {

/// What a focus request did.
#[derive(Debug, Clone, Copy, PartialEq, Eq)]
pub enum FocusContextResult {
    /// The component identified by `current` took the focus; `previous`, if any,
    /// had it before and is to be unfocused.
    Focused { previous: Option<usize>, current: usize },
    /// The component identified by this had the focus already.
    AlreadyFocused(usize),
}

/// A key that a component or a container is bound to: a character, a function
/// key by its number, or another key by a code that the caller gives it.
#[derive(Clone, Copy, Debug, PartialEq, Eq, Structural)]
pub enum Key {
    Char(char),
    Function(u8),
    Named(u16),
}

/// What a container does with a key that none of its components is bound to.
pub struct ContainerKeyResult {
    /// The key is the container's own keymap: the container takes the focus.
    pub focus_container: bool,
    /// The move made because the key is the keymap for the next component.
    pub next: Option<FocusContextResult>,
    /// The move made after it because the key is the keymap for the previous one.
    pub previous: Option<FocusContextResult>,
}

/// Which component of a container has the focus, by the identity the container
/// gives it, and where the container's cursor stands.
pub struct FocusCursor {
    current: i32,
    last_focus: Option<usize>,
}

impl FocusCursor {
    #[verifier::type_invariant]
    spec fn cursor_in_range(self) -> bool {
        0 <= self.current < i32::MAX
    }

    /// The cursor: the index last focused by position.
    pub closed spec fn current_spec(self) -> int {
        self.current as int
    }

    /// The component that holds the focus, if any.
    pub closed spec fn last_focus_spec(self) -> Option<usize> {
        self.last_focus
    }

    /// A cursor at the first component, with nothing focused.
    pub fn new() -> (r: Self)
        ensures
            r.current_spec() == 0,
            r.last_focus_spec() is None,
    {
        FocusCursor { current: 0, last_focus: None }
    }

    /// The cursor.
    pub fn current(&self) -> (r: i32)
        ensures
            r == self.current_spec(),
            0 <= r < i32::MAX,
    {
        proof {
            use_type_invariant(self);
        }
        self.current
    }

    /// The component that holds the focus, if any.
    pub fn last_focus(&self) -> (r: Option<usize>)
        ensures
            r == self.last_focus_spec(),
    {
        self.last_focus
    }

    /// Gives the focus to the component identified by `target`: a component held
    /// at two positions has one identity, so it is already focused either way.
    pub fn focus_to(&mut self, target: usize) -> (r: FocusContextResult)
        ensures
            final(self).current_spec() == old(self).current_spec(),
            old(self).last_focus_spec() == Some(target) ==> {
                &&& r == FocusContextResult::AlreadyFocused(target)
                &&& final(self).last_focus_spec() == old(self).last_focus_spec()
            },
            old(self).last_focus_spec() != Some(target) ==> {
                &&& r == FocusContextResult::Focused {
                    previous: old(self).last_focus_spec(),
                    current: target,
                }
                &&& final(self).last_focus_spec() == Some(target)
            },
    {
        proof {
            use_type_invariant(&*self);
        }
        let last = self.last_focus;
        if let Some(last) = last {
            if last == target {
                return FocusContextResult::AlreadyFocused(last);
            }
        }
        self.last_focus = Some(target);
        FocusContextResult::Focused { previous: last, current: target }
    }

    /// Moves the cursor to `index`, wrapped onto the `len` components, and gives
    /// the focus to the component there; `ids[i]` identifies component `i`.
    pub fn focus_on(&mut self, len: usize, ids: &Vec<usize>, index: i32) -> (r: FocusContextResult)
        requires
            0 < len <= i32::MAX,
            ids.len() == len,
        ensures
            final(self).current_spec() == wrapped_index(len as int, index as int),
            r == focus_move(old(self).last_focus_spec(), ids@[wrapped_index(len as int, index as int)]),
            final(self).last_focus_spec() == Some(ids@[wrapped_index(len as int, index as int)]),
    {
        let current = bounded_index(len, index);
        self.current = current;
        self.focus_to(ids[current as usize])
    }

    /// Focuses the component under the cursor.
    pub fn focus_current(&mut self, len: usize, ids: &Vec<usize>) -> (r: FocusContextResult)
        requires
            0 < len <= i32::MAX,
            ids.len() == len,
        ensures
            final(self).current_spec() == wrapped_index(len as int, old(self).current_spec()),
            r == focus_move(
                old(self).last_focus_spec(),
                ids@[wrapped_index(len as int, old(self).current_spec())],
            ),
            final(self).last_focus_spec() == Some(ids@[wrapped_index(len as int, old(self).current_spec())]),
    {
        proof {
            use_type_invariant(&*self);
        }
        let current = self.current;
        self.focus_on(len, ids, current)
    }

    /// Moves the cursor one component on (past the last comes the first) and
    /// focuses the component there.
    pub fn focus_next(&mut self, len: usize, ids: &Vec<usize>) -> (r: FocusContextResult)
        requires
            0 < len <= i32::MAX,
            ids.len() == len,
        ensures
            final(self).current_spec() == wrapped_index(len as int, old(self).current_spec() + 1),
            r == focus_move(
                old(self).last_focus_spec(),
                ids@[wrapped_index(len as int, old(self).current_spec() + 1)],
            ),
            final(self).last_focus_spec() == Some(
                ids@[wrapped_index(len as int, old(self).current_spec() + 1)],
            ),
    {
        proof {
            use_type_invariant(&*self);
        }
        let next = self.current + 1;
        self.focus_on(len, ids, next)
    }

    /// Moves the cursor one component back (before the first comes the last) and
    /// focuses the component there.
    pub fn focus_previous(&mut self, len: usize, ids: &Vec<usize>) -> (r: FocusContextResult)
        requires
            0 < len <= i32::MAX,
            ids.len() == len,
        ensures
            final(self).current_spec() == wrapped_index(len as int, old(self).current_spec() - 1),
            r == focus_move(
                old(self).last_focus_spec(),
                ids@[wrapped_index(len as int, old(self).current_spec() - 1)],
            ),
            final(self).last_focus_spec() == Some(
                ids@[wrapped_index(len as int, old(self).current_spec() - 1)],
            ),
    {
        proof {
            use_type_invariant(&*self);
        }
        let previous = self.current - 1;
        self.focus_on(len, ids, previous)
    }

    /// Handles a key that no component claimed: the container's own keymap
    /// focuses the container, the next keymap moves the focus on, and the
    /// previous keymap then moves it back, each where the key matches.
    pub fn handle_container_key(
        &mut self,
        len: usize,
        ids: &Vec<usize>,
        keymap: &Option<Key>,
        next_keymap: &Option<Key>,
        previous_keymap: &Option<Key>,
        key: &Key,
    ) -> (r: ContainerKeyResult)
        requires
            0 < len <= i32::MAX,
            ids.len() == len,
        ensures
            ({
                let on = keymap_matches(*next_keymap, *key);
                let back = keymap_matches(*previous_keymap, *key);
                let c1 = if on {
                    wrapped_index(len as int, old(self).current_spec() + 1)
                } else {
                    old(self).current_spec()
                };
                let last1 = if on {
                    Some(ids@[c1])
                } else {
                    old(self).last_focus_spec()
                };
                let c2 = if back {
                    wrapped_index(len as int, c1 - 1)
                } else {
                    c1
                };
                &&& r.focus_container == keymap_matches(*keymap, *key)
                &&& r.next == if on {
                    Some(focus_move(old(self).last_focus_spec(), ids@[c1]))
                } else {
                    None
                }
                &&& r.previous == if back {
                    Some(focus_move(last1, ids@[c2]))
                } else {
                    None
                }
                &&& final(self).current_spec() == c2
                &&& final(self).last_focus_spec() == if back {
                    Some(ids@[c2])
                } else {
                    last1
                }
            }),
    {
        let focus_container = match keymap {
            Some(k) => k == key,
            None => false,
        };
        let on = match next_keymap {
            Some(k) => k == key,
            None => false,
        };
        let back = match previous_keymap {
            Some(k) => k == key,
            None => false,
        };
        let next = if on {
            Some(self.focus_next(len, ids))
        } else {
            None
        };
        let previous = if back {
            Some(self.focus_previous(len, ids))
        } else {
            None
        };
        ContainerKeyResult { focus_container, next, previous }
    }

    /// Gives the focus to the first component whose keymap is `key`, if any;
    /// `keymaps[i]` is the keymap of component `i` and `ids[i]` identifies it.
    pub fn focus_if_key(&mut self, keymaps: &Vec<Option<Key>>, ids: &Vec<usize>, key: &Key) -> (r:
        Option<FocusContextResult>)
        requires
            ids.len() == keymaps.len(),
        ensures
            final(self).current_spec() == old(self).current_spec(),
            match r {
                Some(res) => exists|i: int|
                    {
                        &&& #[trigger] is_first_keymap(keymaps@, *key, i)
                        &&& res == focus_move(old(self).last_focus_spec(), ids@[i])
                        &&& final(self).last_focus_spec() == Some(ids@[i])
                    },
                None => {
                    &&& forall|j: int|
                        0 <= j < keymaps@.len() ==> !keymap_matches(#[trigger] keymaps@[j], *key)
                    &&& final(self).last_focus_spec() == old(self).last_focus_spec()
                },
            },
    {
        let mut i: usize = 0;
        while i < keymaps.len()
            invariant
                0 <= i <= keymaps.len(),
                ids.len() == keymaps.len(),
                *self == *old(self),
                forall|j: int| 0 <= j < i ==> !keymap_matches(#[trigger] keymaps@[j], *key),
            decreases keymaps.len() - i,
        {
            let found = match &keymaps[i] {
                Some(k) => k == key,
                None => false,
            };
            if found {
                let res = self.focus_to(ids[i]);
                proof {
                    assert(is_first_keymap(keymaps@, *key, i as int));
                }
                return Some(res);
            }
            i = i + 1;
        }
        None
    }

    /// Forgets the focused component once it has given the focus up itself
    /// (`still_focused` is false); returns it, so that the container can announce it.
    pub fn unfocus_last(&mut self, still_focused: bool) -> (r: Option<usize>)
        ensures
            final(self).current_spec() == old(self).current_spec(),
            old(self).last_focus_spec() is Some && !still_focused ==> {
                &&& r == old(self).last_focus_spec()
                &&& final(self).last_focus_spec() is None
            },
            !(old(self).last_focus_spec() is Some && !still_focused) ==> {
                &&& r is None
                &&& final(self).last_focus_spec() == old(self).last_focus_spec()
            },
    {
        proof {
            use_type_invariant(&*self);
        }
        match self.last_focus {
            Some(last) => {
                if !still_focused {
                    self.last_focus = None;
                    Some(last)
                } else {
                    None
                }
            },
            None => None,
        }
    }
}

/// The result of giving the focus to `target` when `last` holds it.
pub open spec fn focus_move(last: Option<usize>, target: usize) -> FocusContextResult {
    if last == Some(target) {
        FocusContextResult::AlreadyFocused(target)
    } else {
        FocusContextResult::Focused { previous: last, current: target }
    }
}

/// Whether `keymap` is set to `key`.
pub open spec fn keymap_matches(keymap: Option<Key>, key: Key) -> bool {
    keymap == Some(key)
}

/// `i` is the first position of `keymaps` set to `key`.
pub open spec fn is_first_keymap(keymaps: Seq<Option<Key>>, key: Key, i: int) -> bool {
    &&& 0 <= i < keymaps.len()
    &&& keymap_matches(keymaps[i], key)
    &&& forall|j: int| 0 <= j < i ==> !keymap_matches(#[trigger] keymaps[j], key)
}

/// Stepping the cursor back undoes stepping it on: on a container of `len`
/// components, from any cursor position `c`, `focus_next` then `focus_previous`
/// leaves the cursor where it was.
pub proof fn lemma_previous_undoes_next(len: int, c: int)
    requires
        0 < len,
        0 <= c < len,
    ensures
        wrapped_index(len, wrapped_index(len, c + 1) - 1) == c,
        wrapped_index(len, wrapped_index(len, c - 1) + 1) == c,
{
    if c + 1 == len {
        vstd::arithmetic::div_mod::lemma_mod_self_0(len);
        vstd::arithmetic::div_mod::lemma_mod_multiples_vanish(-1, len - 1, len);
        vstd::arithmetic::div_mod::lemma_small_mod((len - 1) as nat, len as nat);
    } else {
        vstd::arithmetic::div_mod::lemma_small_mod((c + 1) as nat, len as nat);
        vstd::arithmetic::div_mod::lemma_small_mod(c as nat, len as nat);
    }
    if c == 0 {
        vstd::arithmetic::div_mod::lemma_mod_multiples_vanish(-1, len - 1, len);
        vstd::arithmetic::div_mod::lemma_small_mod((len - 1) as nat, len as nat);
        vstd::arithmetic::div_mod::lemma_mod_self_0(len);
    } else {
        vstd::arithmetic::div_mod::lemma_small_mod((c - 1) as nat, len as nat);
        vstd::arithmetic::div_mod::lemma_small_mod(c as nat, len as nat);
    }
}

/// Wrapping is periodic: an index and the same index one whole container length
/// further wrap onto the same component, and an index already in range stays put.
pub proof fn lemma_wrap_periodic(len: int, index: int)
    requires
        0 < len,
    ensures
        wrapped_index(len, index + len) == wrapped_index(len, index),
        wrapped_index(len, index - len) == wrapped_index(len, index),
        0 <= index < len ==> wrapped_index(len, index) == index,
{
    vstd::arithmetic::div_mod::lemma_mod_add_multiples_vanish(index, len);
    vstd::arithmetic::div_mod::lemma_mod_sub_multiples_vanish(index, len);
    if 0 <= index < len {
        vstd::arithmetic::div_mod::lemma_small_mod(index as nat, len as nat);
    }
}

} // verus!
