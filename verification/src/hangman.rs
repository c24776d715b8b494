//! The hangman game: a secret word, a budget of wrong guesses, and one
//! state transition per guessed letter. Choosing the secret word from a
//! word list is a random draw; everything after the draw is exact.

use vstd::prelude::*;

verus! {

/// Relies on rand::RngExt::random_range over `0..n`: a draw below `n`. The
/// draw depends on the generator's state, so only the bound is stated.
#[verifier::external_body]
fn random_below(n: usize) -> (r: usize)
    requires
        n >= 1,
    ensures
        r < n,
{
    <rand::rngs::ThreadRng as rand::RngExt>::random_range(&mut rand::rng(), 0..n)
}

/// Picks one word of the list at random; `None` only for an empty list.
pub fn pick_word(words: &Vec<String>) -> (r: Option<String>)
    ensures
        match r {
            Some(w) => exists|i: int| 0 <= i < words@.len() && w == #[trigger] words@[i],
            None => words@.len() == 0,
        },
{
    if words.len() == 0 {
        return None;
    }
    let i = random_below(words.len());
    let w = words[i].clone();
    proof {
        assert(w == words@[i as int]);
    }
    Some(w)
}

/// One hangman round: the secret word's characters, which of them are
/// revealed, the letters guessed so far, and the wrong guesses left.
pub struct HangmanGame {
    secret: Vec<char>,
    revealed: Vec<bool>,
    guessed: Vec<char>,
    guesses_left: u32,
}

impl HangmanGame {
    /// Well-formedness: one revealed flag per secret character.
    pub closed spec fn wf(&self) -> bool {
        self.revealed@.len() == self.secret@.len()
    }

    /// The secret word's characters.
    pub closed spec fn spec_secret(&self) -> Seq<char> {
        self.secret@
    }

    /// Which positions of the secret are revealed.
    pub closed spec fn spec_revealed(&self) -> Seq<bool> {
        self.revealed@
    }

    /// The letters guessed so far, in first-guess order.
    pub closed spec fn spec_guessed(&self) -> Seq<char> {
        self.guessed@
    }

    /// The wrong guesses still allowed.
    pub closed spec fn spec_guesses_left(&self) -> u32 {
        self.guesses_left
    }

    /// Starts a round over the given secret word with the given budget of
    /// wrong guesses: nothing revealed, nothing guessed.
    pub fn new(secret: Vec<char>, guesses: u32) -> (r: HangmanGame)
        ensures
            r.wf(),
            r.spec_secret() == secret@,
            r.spec_revealed().len() == secret@.len(),
            forall|i: int| 0 <= i < secret@.len() ==> !(#[trigger] r.spec_revealed()[i]),
            r.spec_guessed().len() == 0,
            r.spec_guesses_left() == guesses,
    {
        let n = secret.len();
        let mut revealed: Vec<bool> = Vec::new();
        let mut i: usize = 0;
        while i < n
            invariant
                0 <= i <= n,
                revealed@.len() == i,
                forall|k: int| 0 <= k < i ==> !(#[trigger] revealed@[k]),
            decreases n - i,
        {
            revealed.push(false);
            i = i + 1;
        }
        HangmanGame { secret, revealed, guessed: Vec::new(), guesses_left: guesses }
    }

    /// The number of wrong guesses still allowed.
    pub fn guesses_left(&self) -> (r: u32)
        ensures
            r == self.spec_guesses_left(),
    {
        self.guesses_left
    }

    /// Whether every character of the secret is revealed: the win
    /// condition.
    pub fn won(&self) -> (r: bool)
        requires
            self.wf(),
        ensures
            r == (forall|i: int|
                0 <= i < self.spec_revealed().len() ==> (#[trigger] self.spec_revealed()[i])),
    {
        let mut i: usize = 0;
        while i < self.revealed.len()
            invariant
                0 <= i <= self.revealed@.len(),
                forall|k: int| 0 <= k < i ==> (#[trigger] self.revealed@[k]),
            decreases self.revealed@.len() - i,
        {
            if !self.revealed[i] {
                proof {
                    if forall|k: int|
                        0 <= k < self.spec_revealed().len() ==> (
                        #[trigger] self.spec_revealed()[k]) {
                        assert(self.spec_revealed()[i as int]);
                    }
                }
                return false;
            }
            i = i + 1;
        }
        true
    }

    /// The word as shown to the player: revealed characters as
    /// themselves, hidden ones as `-`.
    pub fn masked(&self) -> (r: Vec<char>)
        requires
            self.wf(),
        ensures
            r@.len() == self.spec_secret().len(),
            forall|i: int|
                0 <= i < r@.len() ==> #[trigger] r@[i] == (if self.spec_revealed()[i] {
                    self.spec_secret()[i]
                } else {
                    '-'
                }),
    {
        let mut r: Vec<char> = Vec::new();
        let mut i: usize = 0;
        while i < self.secret.len()
            invariant
                self.wf(),
                0 <= i <= self.secret@.len(),
                r@.len() == i,
                forall|k: int|
                    0 <= k < i ==> #[trigger] r@[k] == (if self.spec_revealed()[k] {
                        self.spec_secret()[k]
                    } else {
                        '-'
                    }),
            decreases self.secret@.len() - i,
        {
            if self.revealed[i] {
                r.push(self.secret[i]);
            } else {
                r.push('-');
            }
            i = i + 1;
        }
        r
    }

    /// The letters guessed so far, in first-guess order without repeats.
    pub fn guessed_letters(&self) -> (r: &Vec<char>)
        ensures
            r@ == self.spec_guessed(),
    {
        &self.guessed
    }

    /// Plays one guessed letter: every position holding it is revealed; a
    /// letter the secret lacks costs one guess; a letter is recorded the
    /// first time it is guessed. Returns whether the letter hit.
    pub fn guess(&mut self, c: char) -> (hit: bool)
        requires
            old(self).wf(),
            old(self).spec_guesses_left() > 0,
        ensures
            final(self).wf(),
            hit == old(self).spec_secret().contains(c),
            final(self).spec_secret() == old(self).spec_secret(),
            final(self).spec_revealed().len() == old(self).spec_revealed().len(),
            forall|i: int|
                0 <= i < final(self).spec_revealed().len()
                    ==> #[trigger] final(self).spec_revealed()[i] == (old(self).spec_revealed()[i]
                    || old(self).spec_secret()[i] == c),
            final(self).spec_guesses_left() == (if hit {
                old(self).spec_guesses_left()
            } else {
                (old(self).spec_guesses_left() - 1) as u32
            }),
            final(self).spec_guessed() == (if old(self).spec_guessed().contains(c) {
                old(self).spec_guessed()
            } else {
                old(self).spec_guessed().push(c)
            }),
    {
        let mut already = false;
        let mut g: usize = 0;
        while g < self.guessed.len()
            invariant
                0 <= g <= self.guessed@.len(),
                already == exists|k: int|
                    0 <= k < g && (#[trigger] self.guessed@[k]) == c,
            decreases self.guessed@.len() - g,
        {
            if self.guessed[g] == c {
                already = true;
                proof {
                    assert((self.guessed@[g as int]) == c);
                }
            }
            g = g + 1;
        }
        proof {
            if already {
                let k = choose|k: int| 0 <= k < self.guessed@.len() && (#[trigger] self.guessed@[k])
                    == c;
                assert(self.guessed@.contains(c));
            } else {
                if self.guessed@.contains(c) {
                    let k = choose|k: int|
                        0 <= k < self.guessed@.len() && (#[trigger] self.guessed@[k]) == c;
                }
            }
        }
        if !already {
            self.guessed.push(c);
        }
        proof {
            assert(self.guessed@ == (if old(self).guessed@.contains(c) {
                old(self).guessed@
            } else {
                old(self).guessed@.push(c)
            }));
        }
        let mut hit = false;
        let mut i: usize = 0;
        let ghost rev0 = self.revealed@;
        while i < self.secret.len()
            invariant
                self.wf(),
                self.secret@ == old(self).secret@,
                self.revealed@.len() == rev0.len(),
                rev0.len() == self.secret@.len(),
                0 <= i <= self.secret@.len(),
                hit == exists|k: int| 0 <= k < i && (#[trigger] self.secret@[k]) == c,
                forall|k: int|
                    0 <= k < i ==> #[trigger] self.revealed@[k] == (rev0[k] || self.secret@[k]
                        == c),
                forall|k: int| i <= k < rev0.len() ==> #[trigger] self.revealed@[k] == rev0[k],
                self.guessed@ == (if old(self).guessed@.contains(c) {
                    old(self).guessed@
                } else {
                    old(self).guessed@.push(c)
                }),
                self.guesses_left == old(self).guesses_left,
            decreases self.secret@.len() - i,
        {
            if self.secret[i] == c {
                self.revealed[i] = true;
                hit = true;
                proof {
                    assert((self.secret@[i as int]) == c);
                }
            }
            i = i + 1;
        }
        proof {
            if hit {
                let k = choose|k: int|
                    0 <= k < self.secret@.len() && (#[trigger] self.secret@[k]) == c;
                assert(self.secret@.contains(c));
            } else {
                if self.secret@.contains(c) {
                    let k = choose|k: int|
                        0 <= k < self.secret@.len() && (#[trigger] self.secret@[k]) == c;
                }
            }
        }
        if !hit {
            self.guesses_left = self.guesses_left - 1;
        }
        hit
    }
}

} // verus!
