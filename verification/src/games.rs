//! The word-puzzle game: a puzzle is four categories of four clues; a play
//! view scrambles the sixteen clues; a guess of four words solves a row when
//! every word belongs to one category.

use vstd::prelude::*;

use rand::seq::SliceRandom;

verus! {

/// What a puzzle author submits for one category.
pub struct ConnectionCategorySchema {
    pub category_clues: [String; 4],
    pub category_name: String,
}

/// What a puzzle author submits for a whole game.
pub struct ConnectionGameSchema {
    pub connection_categories: [ConnectionCategorySchema; 4],
    pub puzzle_name: String,
}

/// One stored category: four clues and a name.
pub struct ConnectionCategory {
    pub category_clues: [String; 4],
    pub category_name: String,
}

/// One stored puzzle.
pub struct ConnectionGame {
    pub id: String,
    pub connection_categories: [ConnectionCategory; 4],
    pub puzzle_name: String,
    pub slug: String,
    pub author_id: String,
    pub creation_datetime: i64,
}

/// The puzzle as handed to a player: the sixteen clues scrambled together,
/// the categories hidden.
pub struct PlayConnectionGame {
    pub id: String,
    pub author_id: String,
    pub scrambled_clues: Vec<String>,
    pub puzzle_name: String,
    pub slug: String,
    pub creation_datetime: i64,
}

/// The puzzle as listed: no categories, no clues.
pub struct MinimalConnectionsGame {
    pub id: String,
    pub puzzle_name: String,
    pub slug: String,
    pub author_id: String,
    pub creation_datetime: i64,
}

/// The answer to one row-solving attempt.
pub struct TrySolveRow {
    pub row_name: Option<String>,
    pub correct_guess: bool,
}

/// Whether a word stands among a category's four clues.
pub open spec fn clues_contain(clues: Seq<String>, word: Seq<char>) -> bool {
    exists|k: int| 0 <= k < clues.len() && (#[trigger] clues[k])@ == word
}

/// Whether every word of the guess belongs to the category.
pub open spec fn category_solved_by(cat: &ConnectionCategory, guess: Seq<String>) -> bool {
    forall|k: int| 0 <= k < guess.len() ==> clues_contain(cat.category_clues@, (#[trigger] guess[k])@)
}

/// The first category the guess solves, if any.
pub open spec fn first_solved(cats: Seq<ConnectionCategory>, guess: Seq<String>) -> Option<int>
    decreases cats.len(),
{
    if cats.len() == 0 {
        None
    } else if category_solved_by(&cats[0], guess) {
        Some(0int)
    } else {
        match first_solved(cats.drop_first(), guess) {
            Some(i) => Some(i + 1),
            None => None,
        }
    }
}

/// A first solved category at `i` pins `first_solved` down.
proof fn lemma_first_solved_at(cats: Seq<ConnectionCategory>, guess: Seq<String>, i: int)
    requires
        0 <= i < cats.len(),
        category_solved_by(&cats[i], guess),
        forall|k: int| 0 <= k < i ==> !category_solved_by(&cats[k], guess),
    ensures
        first_solved(cats, guess) == Some(i),
    decreases i,
{
    if i > 0 {
        lemma_first_solved_at(cats.drop_first(), guess, i - 1);
    }
}

/// No solved category means nothing is found.
proof fn lemma_first_solved_none(cats: Seq<ConnectionCategory>, guess: Seq<String>)
    requires
        forall|k: int| 0 <= k < cats.len() ==> !category_solved_by(&cats[k], guess),
    ensures
        first_solved(cats, guess) is None,
    decreases cats.len(),
{
    if cats.len() > 0 {
        lemma_first_solved_none(cats.drop_first(), guess);
    }
}

/// Whether one word stands among a category's clues.
fn clues_contain_word(clues: &[String; 4], word: &String) -> (r: bool)
    ensures
        r == clues_contain(clues@, word@),
{
    if clues[0].eq(word) || clues[1].eq(word) || clues[2].eq(word) || clues[3].eq(word) {
        proof {
            assert(exists|k: int| 0 <= k < 4 && (#[trigger] clues@[k])@ == word@);
        }
        true
    } else {
        proof {
            assert forall|k: int| 0 <= k < clues@.len() implies (#[trigger] clues@[k])@
                != word@ by {
                assert(clues@[0] == clues[0]);
                assert(clues@[1] == clues[1]);
                assert(clues@[2] == clues[2]);
                assert(clues@[3] == clues[3]);
            }
        }
        false
    }
}

/// Whether the guess solves the category: all four words among its clues.
fn guess_solves_category(cat: &ConnectionCategory, guess: &[String; 4]) -> (r: bool)
    ensures
        r == category_solved_by(cat, guess@),
{
    let r = clues_contain_word(&cat.category_clues, &guess[0]) && clues_contain_word(
        &cat.category_clues,
        &guess[1],
    ) && clues_contain_word(&cat.category_clues, &guess[2]) && clues_contain_word(
        &cat.category_clues,
        &guess[3],
    );
    proof {
        assert(guess@[0] == guess[0]);
        assert(guess@[1] == guess[1]);
        assert(guess@[2] == guess[2]);
        assert(guess@[3] == guess[3]);
        if r {
            assert forall|k: int| 0 <= k < guess@.len() implies clues_contain(
                cat.category_clues@,
                (#[trigger] guess@[k])@,
            ) by {}
        }
    }
    r
}

/// Finds the first category that the guessed row solves: its name and a
/// success flag, or no name and failure.
pub fn check_if_solution_is_valid(game: &ConnectionGame, guess: &[String; 4]) -> (r: (
    Option<String>,
    bool,
))
    ensures
        match first_solved(game.connection_categories@, guess@) {
            Some(i) => r.1 && match r.0 {
                Some(name) => name@ == game.connection_categories@[i].category_name@,
                None => false,
            },
            None => !r.1 && r.0 is None,
        },
{
    let mut i: usize = 0;
    while i < 4
        invariant
            i <= 4,
            forall|k: int|
                0 <= k < i ==> !category_solved_by(&game.connection_categories@[k], guess@),
        decreases 4 - i,
    {
        if guess_solves_category(&game.connection_categories[i], guess) {
            proof {
                lemma_first_solved_at(game.connection_categories@, guess@, i as int);
            }
            return (Some(game.connection_categories[i].category_name.clone()), true);
        }
        i = i + 1;
    }
    proof {
        lemma_first_solved_none(game.connection_categories@, guess@);
    }
    (None, false)
}

/// Relies on rand's `SliceRandom::shuffle`: permutes the elements in place,
/// changing nothing but their order.
#[verifier::external_body]
fn shuffle_strings(items: &mut Vec<String>)
    ensures
        final(items)@.to_multiset() == old(items)@.to_multiset(),
{
    items.as_mut_slice().shuffle(&mut rand::rng());
}

/// The sixteen clues of a game, category by category.
pub open spec fn all_clues(cats: Seq<ConnectionCategory>) -> Seq<String>
    decreases cats.len(),
{
    if cats.len() == 0 {
        Seq::empty()
    } else {
        cats[0].category_clues@ + all_clues(cats.drop_first())
    }
}

impl MinimalConnectionsGame {
    /// The listing view of a game: everything but the categories.
    pub fn from_game(game: &ConnectionGame) -> (r: Self)
        ensures
            r.id@ == game.id@,
            r.puzzle_name@ == game.puzzle_name@,
            r.slug@ == game.slug@,
            r.author_id@ == game.author_id@,
            r.creation_datetime == game.creation_datetime,
    {
        MinimalConnectionsGame {
            id: game.id.clone(),
            puzzle_name: game.puzzle_name.clone(),
            slug: game.slug.clone(),
            author_id: game.author_id.clone(),
            creation_datetime: game.creation_datetime,
        }
    }
}

impl PlayConnectionGame {
    /// The playing view of a game: the sixteen clues shuffled together, the
    /// other fields carried over. The scrambled clues are exactly the
    /// game's clues, reordered.
    pub fn from_game(game: &ConnectionGame) -> (r: Self)
        ensures
            r.scrambled_clues@.to_multiset() == all_clues(
                game.connection_categories@,
            ).to_multiset(),
            r.scrambled_clues@.len() == 16,
            r.id@ == game.id@,
            r.author_id@ == game.author_id@,
            r.puzzle_name@ == game.puzzle_name@,
            r.slug@ == game.slug@,
            r.creation_datetime == game.creation_datetime,
    {
        let mut clues: Vec<String> = Vec::new();
        let mut ci: usize = 0;
        while ci < 4
            invariant
                ci <= 4,
                clues@ =~= all_clues(game.connection_categories@.take(ci as int)),
                clues@.len() == 4 * ci,
            decreases 4 - ci,
        {
            let cat = &game.connection_categories[ci];
            clues.push(cat.category_clues[0].clone());
            clues.push(cat.category_clues[1].clone());
            clues.push(cat.category_clues[2].clone());
            clues.push(cat.category_clues[3].clone());
            proof {
                lemma_all_clues_take_step(game.connection_categories@, ci as int);
                assert(cat.category_clues@ =~= seq![
                    cat.category_clues@[0],
                    cat.category_clues@[1],
                    cat.category_clues@[2],
                    cat.category_clues@[3],
                ]);
                assert(clues@ =~= all_clues(game.connection_categories@.take(ci + 1)));
            }
            ci = ci + 1;
        }
        proof {
            assert(game.connection_categories@.take(4) =~= game.connection_categories@);
            vstd::seq_lib::lemma_multiset_commutative(clues@, clues@);
        }
        let ghost before = clues@;
        shuffle_strings(&mut clues);
        proof {
            before.to_multiset_ensures();
            clues@.to_multiset_ensures();
        }
        PlayConnectionGame {
            id: game.id.clone(),
            author_id: game.author_id.clone(),
            scrambled_clues: clues,
            puzzle_name: game.puzzle_name.clone(),
            slug: game.slug.clone(),
            creation_datetime: game.creation_datetime,
        }
    }
}

/// Taking one more category appends its four clues.
proof fn lemma_all_clues_take_step(cats: Seq<ConnectionCategory>, i: int)
    requires
        0 <= i < cats.len(),
    ensures
        all_clues(cats.take(i + 1)) =~= all_clues(cats.take(i)) + cats[i].category_clues@,
    decreases i,
{
    if i == 0 {
        assert(cats.take(1).drop_first() =~= Seq::<ConnectionCategory>::empty());
        assert(cats.take(1)[0] == cats[0]);
        assert(all_clues(Seq::<ConnectionCategory>::empty()) == Seq::<String>::empty());
        assert(all_clues(cats.take(1)) =~= cats[0].category_clues@ + Seq::<String>::empty());
        assert(all_clues(cats.take(0)) == Seq::<String>::empty());
    } else {
        lemma_all_clues_take_step(cats.drop_first(), i - 1);
        assert(cats.take(i + 1).drop_first() =~= cats.drop_first().take(i));
        assert(cats.take(i).drop_first() =~= cats.drop_first().take(i - 1));
        assert(cats.take(i + 1)[0] == cats[0]);
        assert(cats.take(i)[0] == cats[0]);
        assert(cats.drop_first()[i - 1] == cats[i]);
        assert(all_clues(cats.take(i + 1)) =~= cats[0].category_clues@ + all_clues(
            cats.drop_first().take(i),
        ));
        assert(all_clues(cats.take(i)) =~= cats[0].category_clues@ + all_clues(
            cats.drop_first().take(i - 1),
        ));
        assert(all_clues(cats.drop_first().take(i)) =~= all_clues(cats.drop_first().take(i - 1))
            + cats[i].category_clues@);
    }
}

} // verus!
