//! The interactive selection engine: a query buffer, an ordered candidate
//! list, a highlighted index with circular navigation, and an exit flag.
//! Every keystroke of a session maps to exactly one transition of this state.

use vstd::prelude::*;
use vstd::string::*;

verus! {

/// A navigation direction for the highlighted selection.
pub enum Direction {
    Up,
    Down,
}

/// One decoded key event, as the dispatcher sees it.
pub enum Key {
    Char(char),
    Backspace,
    Up,
    Down,
    Enter,
    Tab,
    Esc,
    Other,
}

/// What the caller must do after a key was handled: nothing, emit the
/// confirmed path on the session's output channel, or open the bookmark
/// store for manual editing.
pub enum Action {
    Idle,
    Emit(String),
    OpenStore,
}

/// The selection invariant: no selection on an empty candidate list, and a
/// valid index on a non-empty one whenever a selection is present.
pub open spec fn sel_ok(sel: Option<usize>, len: nat) -> bool {
    match sel {
        Some(i) => len > 0 && (i as nat) < len,
        None => len == 0,
    }
}

/// The selection after the candidate list was re-ranked: the top-ranked item,
/// or none if there is nothing to select.
pub open spec fn top_selection(len: nat) -> Option<usize> {
    if len == 0 {
        None
    } else {
        Some(0usize)
    }
}

/// Where one move takes the selection: circular increment on Down, circular
/// decrement on Up, and a no-op when there is no selection.
pub open spec fn moved(sel: Option<usize>, dir: Direction, len: nat) -> Option<usize> {
    match sel {
        None => None,
        Some(i) => match dir {
            Direction::Down => Some((((i as int) + 1) % (len as int)) as usize),
            Direction::Up => if i == 0 {
                Some((len - 1) as usize)
            } else {
                Some((i - 1) as usize)
            },
        },
    }
}

/// The selection after `k` successive Down moves.
pub open spec fn down_times(sel: Option<usize>, k: nat, len: nat) -> Option<usize>
    decreases k,
{
    if k == 0 {
        sel
    } else {
        moved(down_times(sel, (k - 1) as nat, len), Direction::Down, len)
    }
}

/// Where `k` Down moves land, in closed form: `i + k`, wrapped once past the
/// end of the list.
proof fn lemma_down_times_closed(i: usize, k: nat, len: nat)
    requires
        len <= usize::MAX,
        (i as nat) < len,
        k <= len,
    ensures
        down_times(Some(i), k, len) == Some(
            (if i + k < len {
                i + k
            } else {
                i + k - len
            }) as usize,
        ),
    decreases k,
{
    if k == 0 {
    } else {
        lemma_down_times_closed(i, (k - 1) as nat, len);
        let prev: int = if i + k - 1 < len {
            i + k - 1
        } else {
            i + k - 1 - len
        };
        if prev + 1 < len {
            vstd::arithmetic::div_mod::lemma_small_mod((prev + 1) as nat, len);
        } else {
            vstd::arithmetic::div_mod::lemma_mod_self_0(len as int);
        }
    }
}

/// Law: on a non-empty candidate list of length `len`, `len` successive Down
/// moves from any valid position visit every index exactly once and return to
/// the starting position.
pub proof fn lemma_down_cycle(i: usize, len: nat)
    requires
        len <= usize::MAX,
        (i as nat) < len,
    ensures
        down_times(Some(i), len, len) == Some(i),
        forall|a: nat, b: nat|
            a < b < len ==> down_times(Some(i), a, len) != down_times(Some(i), b, len),
{
    lemma_down_times_closed(i, len, len);
    assert forall|a: nat, b: nat|
        a < b < len implies down_times(Some(i), a, len) != down_times(Some(i), b, len) by {
        lemma_down_times_closed(i, a, len);
        lemma_down_times_closed(i, b, len);
    }
}

/// Law: on a non-empty candidate list, successive Down moves from any valid
/// position reach every index within the first `len` steps; with
/// `lemma_down_cycle` the `len` distinct positions visited are exactly
/// `0..len`, each once.
pub proof fn lemma_down_reaches(i: usize, j: usize, len: nat)
    requires
        len <= usize::MAX,
        (i as nat) < len,
        (j as nat) < len,
    ensures
        exists|k: nat| k < len && down_times(Some(i), k, len) == Some(j),
{
    let k: nat = if j >= i {
        (j - i) as nat
    } else {
        (j + len - i) as nat
    };
    lemma_down_times_closed(i, k, len);
    assert(k < len && down_times(Some(i), k, len) == Some(j));
}

/// Law: Up from index 0 wraps to the last index, and Up followed by Down
/// returns any position to itself.
pub proof fn lemma_up_down_inverse(sel: Option<usize>, len: nat)
    requires
        len <= usize::MAX,
        sel_ok(sel, len),
    ensures
        len > 0 ==> moved(Some(0usize), Direction::Up, len) == Some((len - 1) as usize),
        sel is Some ==> moved(moved(sel, Direction::Up, len), Direction::Down, len) == sel,
{
    if sel is Some {
        let i = sel->0;
        let up: int = if i == 0 {
            len - 1
        } else {
            i - 1
        };
        if up + 1 < len {
            vstd::arithmetic::div_mod::lemma_small_mod((up + 1) as nat, len);
        } else {
            vstd::arithmetic::div_mod::lemma_mod_self_0(len as int);
        }
    }
}

/// Law: on an empty candidate list a move in either direction leaves the
/// selection absent.
pub proof fn lemma_move_empty(sel: Option<usize>, dir: Direction)
    requires
        sel_ok(sel, 0),
    ensures
        moved(sel, dir, 0) == None::<usize>,
{
}

/// What the result of `fuzzy_sort_in_place` holds for given candidates and
/// query: the candidates reordered ascending by edit distance to the query,
/// ties kept in their old order. The exact order is the ranking crate's
/// business; it depends on the candidates and the query alone.
pub uninterp spec fn ranked(paths: Seq<String>, query: Seq<char>) -> Seq<String>;

/// Relies on rustic_fuzz::fuzzy_sort_in_place: a stable slice sort by edit
/// distance to the query, so the result is a permutation of the input and a
/// function of the input and the query alone.
#[verifier::external_body]
fn rank(paths: &mut Vec<String>, query: &Vec<char>)
    ensures
        final(paths)@ == ranked(old(paths)@, query@),
        final(paths)@.to_multiset() == old(paths)@.to_multiset(),
        final(paths)@.len() == old(paths)@.len(),
{
    let q: String = query.iter().collect();
    rustic_fuzz::fuzzy_sort_in_place(paths, &q);
}

/// The selector state of one session.
pub struct App {
    /// The query text typed so far.
    pub search: Vec<char>,
    /// The candidate paths; the set of elements is fixed for the session,
    /// only their order changes with each query edit.
    pub paths: Vec<String>,
    /// The highlighted position in `paths`, absent exactly when `paths` is
    /// empty.
    pub selected: Option<usize>,
    /// Set once, by confirm or cancel; never reset.
    pub exit: bool,
}

impl App {
    /// The state invariant: the selection is valid for the candidate list.
    pub open spec fn well_formed(self) -> bool {
        sel_ok(self.selected, self.paths@.len())
    }

    /// What confirming yields: the highlighted path, or the sentinel `.`
    /// ("current directory") when there is no selection.
    pub open spec fn confirmed(self) -> Seq<char> {
        match self.selected {
            Some(i) => self.paths@[i as int]@,
            None => seq!['.'],
        }
    }

    /// A fresh session over the loaded candidates, in store order, with the
    /// top item highlighted when there is one.
    pub fn new(paths: Vec<String>) -> (app: App)
        ensures
            app.well_formed(),
            app.search@ == Seq::<char>::empty(),
            app.paths == paths,
            app.selected == top_selection(paths@.len()),
            app.exit == false,
    {
        let selected: Option<usize> = if paths.is_empty() {
            None
        } else {
            Some(0usize)
        };
        App { search: Vec::new(), paths, selected, exit: false }
    }

    /// Moves the highlight one step with wraparound; a no-op on an empty
    /// candidate list. Touches nothing but the selection.
    pub fn move_selection(&mut self, dir: Direction)
        requires
            old(self).well_formed(),
        ensures
            final(self).well_formed(),
            final(self).selected == moved(old(self).selected, dir, old(self).paths@.len()),
            final(self).paths == old(self).paths,
            final(self).search == old(self).search,
            final(self).exit == old(self).exit,
    {
        match self.selected {
            None => {},
            Some(i) => {
                let len = self.paths.len();
                match dir {
                    Direction::Down => {
                        let next: usize = if i + 1 == len {
                            0
                        } else {
                            i + 1
                        };
                        proof {
                            if i + 1 < len {
                                vstd::arithmetic::div_mod::lemma_small_mod((i + 1) as nat, len as nat);
                            } else {
                                vstd::arithmetic::div_mod::lemma_mod_self_0(len as int);
                            }
                        }
                        self.selected = Some(next);
                    },
                    Direction::Up => {
                        let next: usize = if i == 0 {
                            len - 1
                        } else {
                            i - 1
                        };
                        self.selected = Some(next);
                    },
                }
            },
        }
    }

    /// Pushes one character onto the query, re-ranks the full candidate list
    /// against the new query, and resets the highlight to the top item.
    pub fn append_char(&mut self, c: char)
        requires
            old(self).well_formed(),
        ensures
            final(self).well_formed(),
            final(self).search@ == old(self).search@.push(c),
            final(self).paths@ == ranked(old(self).paths@, old(self).search@.push(c)),
            final(self).paths@.to_multiset() == old(self).paths@.to_multiset(),
            final(self).selected == top_selection(old(self).paths@.len()),
            final(self).exit == old(self).exit,
    {
        self.search.push(c);
        rank(&mut self.paths, &self.search);
        self.selected = if self.paths.is_empty() {
            None
        } else {
            Some(0usize)
        };
    }

    /// Pops the last query character if there is one (a no-op on an empty
    /// query), re-ranks the full candidate list against the remaining query,
    /// and resets the highlight to the top item.
    pub fn remove_last_char(&mut self)
        requires
            old(self).well_formed(),
        ensures
            final(self).well_formed(),
            final(self).search@ == (if old(self).search@.len() == 0 {
                old(self).search@
            } else {
                old(self).search@.drop_last()
            }),
            final(self).paths@ == ranked(old(self).paths@, final(self).search@),
            final(self).paths@.to_multiset() == old(self).paths@.to_multiset(),
            final(self).selected == top_selection(old(self).paths@.len()),
            final(self).exit == old(self).exit,
    {
        self.search.pop();
        rank(&mut self.paths, &self.search);
        self.selected = if self.paths.is_empty() {
            None
        } else {
            Some(0usize)
        };
    }

    /// Ends the session and returns the highlighted path, or the sentinel
    /// `.` when the candidate list is empty.
    pub fn confirm(&mut self) -> (r: String)
        requires
            old(self).well_formed(),
        ensures
            final(self).well_formed(),
            final(self).exit == true,
            final(self).paths == old(self).paths,
            final(self).search == old(self).search,
            final(self).selected == old(self).selected,
            r@ == old(self).confirmed(),
    {
        self.exit = true;
        match self.selected {
            Some(i) => self.paths[i].clone(),
            None => {
                let r = String::from_str(".");
                proof {
                    reveal_strlit(".");
                    assert(r@ =~= seq!['.']);
                }
                r
            },
        }
    }

    /// Ends the session without choosing a path.
    pub fn cancel(&mut self)
        requires
            old(self).well_formed(),
        ensures
            final(self).well_formed(),
            final(self).exit == true,
            final(self).paths == old(self).paths,
            final(self).search == old(self).search,
            final(self).selected == old(self).selected,
    {
        self.exit = true;
    }

    /// The event dispatcher: maps one decoded key to exactly one transition
    /// and tells the caller what side effect is due. The exit flag is
    /// monotonic: once set it stays set.
    pub fn handle_key(&mut self, key: Key) -> (a: Action)
        requires
            old(self).well_formed(),
        ensures
            final(self).well_formed(),
            old(self).exit ==> final(self).exit,
            match key {
                Key::Char(c) => {
                    &&& final(self).search@ == old(self).search@.push(c)
                    &&& final(self).paths@ == ranked(old(self).paths@, old(self).search@.push(c))
                    &&& final(self).paths@.to_multiset() == old(self).paths@.to_multiset()
                    &&& final(self).selected == top_selection(old(self).paths@.len())
                    &&& final(self).exit == old(self).exit
                    &&& a is Idle
                },
                Key::Backspace => {
                    &&& final(self).search@ == (if old(self).search@.len() == 0 {
                        old(self).search@
                    } else {
                        old(self).search@.drop_last()
                    })
                    &&& final(self).paths@ == ranked(old(self).paths@, final(self).search@)
                    &&& final(self).paths@.to_multiset() == old(self).paths@.to_multiset()
                    &&& final(self).selected == top_selection(old(self).paths@.len())
                    &&& final(self).exit == old(self).exit
                    &&& a is Idle
                },
                Key::Up => {
                    &&& final(self).selected == moved(old(self).selected, Direction::Up, old(self).paths@.len())
                    &&& final(self).paths == old(self).paths
                    &&& final(self).search == old(self).search
                    &&& final(self).exit == old(self).exit
                    &&& a is Idle
                },
                Key::Down => {
                    &&& final(self).selected == moved(old(self).selected, Direction::Down, old(self).paths@.len())
                    &&& final(self).paths == old(self).paths
                    &&& final(self).search == old(self).search
                    &&& final(self).exit == old(self).exit
                    &&& a is Idle
                },
                Key::Enter => {
                    &&& final(self).exit == true
                    &&& final(self).paths == old(self).paths
                    &&& final(self).search == old(self).search
                    &&& final(self).selected == old(self).selected
                    &&& a matches Action::Emit(p) && p@ == old(self).confirmed()
                },
                Key::Esc => {
                    &&& final(self).exit == true
                    &&& final(self).paths == old(self).paths
                    &&& final(self).search == old(self).search
                    &&& final(self).selected == old(self).selected
                    &&& a is Idle
                },
                Key::Tab => {
                    &&& *final(self) == *old(self)
                    &&& a is OpenStore
                },
                Key::Other => {
                    &&& *final(self) == *old(self)
                    &&& a is Idle
                },
            },
    {
        match key {
            Key::Char(c) => {
                self.append_char(c);
                Action::Idle
            },
            Key::Backspace => {
                self.remove_last_char();
                Action::Idle
            },
            Key::Up => {
                self.move_selection(Direction::Up);
                Action::Idle
            },
            Key::Down => {
                self.move_selection(Direction::Down);
                Action::Idle
            },
            Key::Enter => {
                let p = self.confirm();
                Action::Emit(p)
            },
            Key::Esc => {
                self.cancel();
                Action::Idle
            },
            Key::Tab => Action::OpenStore,
            Key::Other => Action::Idle,
        }
    }
}

} // verus!
