//! The search for a port that a worker can listen on.
//!
//! A candidate is drawn at random; whether it is free only the operating system
//! can say. `PortSearch` says what is to be done next, a draw or a try, and takes
//! in what came of it.

use rand::Rng;
use vstd::prelude::*;

verus! {

/// The lowest port that needs no privilege.
pub const MIN_PORT: u16 = 1024;

/// The highest port there is.
pub const MAX_PORT: u16 = 65535;

/// Calls `rand::Rng::gen_range` on `rand::thread_rng()` with an inclusive range.
///
/// Claimed: the number drawn lies in the range. Which one it is, is left to
/// chance. The call panics on an empty range, which is ruled out, and on a
/// machine that has no entropy to seed the generator with.
#[verifier::external_body]
fn gen_range(low: u16, high: u16) -> (n: u16)
    requires
        low <= high,
    ensures
        low <= n <= high,
{
    rand::thread_rng().gen_range(low..=high)
}

/// `n` was drawn from the range of `low` to `high`, both of them in it, and from
/// no other.
pub closed spec fn drawn_from(low: u16, high: u16, n: u16) -> bool {
    call_ensures(gen_range, (low, high), n)
}

/// Where the search stands.
#[derive(Clone, Copy, Debug, PartialEq, Eq, Structural)]
pub enum PortSearch {
    /// A candidate is to be drawn.
    Drawing,
    /// `port` is to be tried.
    Trying { port: u16 },
    /// `port` was tried, and was free.
    Found { port: u16 },
}

/// Begins the search, with a candidate drawn at random.
pub fn generate_random_port() -> (search: PortSearch)
    ensures
        search is Trying,
        search->Trying_port >= MIN_PORT,
        drawn_from(MIN_PORT, MAX_PORT, search->Trying_port),
{
    PortSearch::Drawing.draw()
}

impl PortSearch {
    /// Where the search stands with `candidate` drawn, if it waits for one.
    pub open spec fn with_draw(self, candidate: u16) -> PortSearch {
        if self is Drawing {
            PortSearch::Trying { port: candidate }
        } else {
            self
        }
    }

    /// Where the search stands once the port that is being tried, if there is
    /// one, has proved `available` or not.
    pub open spec fn with_answer(self, available: bool) -> PortSearch {
        match self {
            PortSearch::Trying { port } => if available {
                PortSearch::Found { port }
            } else {
                PortSearch::Drawing
            },
            _ => self,
        }
    }

    /// Takes in a candidate.
    pub fn drawn(self, candidate: u16) -> (search: PortSearch)
        ensures
            search == self.with_draw(candidate),
    {
        match self {
            PortSearch::Drawing => PortSearch::Trying { port: candidate },
            _ => self,
        }
    }

    /// Draws a candidate at random, if the search waits for one.
    pub fn draw(self) -> (search: PortSearch)
        ensures
            self is Drawing ==> search is Trying && search->Trying_port >= MIN_PORT
                && drawn_from(MIN_PORT, MAX_PORT, search->Trying_port),
            self !is Drawing ==> search == self,
    {
        match self {
            PortSearch::Drawing => self.drawn(gen_range(MIN_PORT, MAX_PORT)),
            _ => self,
        }
    }

    /// Takes in whether the port that is being tried is available.
    pub fn answered(self, available: bool) -> (search: PortSearch)
        ensures
            search == self.with_answer(available),
    {
        match self {
            PortSearch::Trying { port } => {
                if available {
                    PortSearch::Found { port }
                } else {
                    PortSearch::Drawing
                }
            },
            _ => self,
        }
    }
}

/// Where the search stands after rounds of a draw and an answer each.
pub open spec fn searched(
    search: PortSearch,
    draws: Seq<u16>,
    answers: Seq<bool>,
) -> PortSearch
    decreases draws.len(),
{
    if draws.len() == 0 {
        search
    } else {
        searched(
            search.with_draw(draws[0]).with_answer(answers[0]),
            draws.drop_first(),
            answers.drop_first(),
        )
    }
}

/// How many of the candidates are drawn in the course of those rounds.
pub open spec fn draws_made(search: PortSearch, draws: Seq<u16>, answers: Seq<bool>) -> nat
    decreases draws.len(),
{
    if draws.len() == 0 {
        0
    } else {
        let made: nat = if search is Drawing {
            1
        } else {
            0
        };
        made + draws_made(
            search.with_draw(draws[0]).with_answer(answers[0]),
            draws.drop_first(),
            answers.drop_first(),
        )
    }
}

proof fn lemma_found_is_final(port: u16, draws: Seq<u16>, answers: Seq<bool>)
    ensures
        searched(PortSearch::Found { port }, draws, answers) == (PortSearch::Found { port }),
        draws_made(PortSearch::Found { port }, draws, answers) == 0,
    decreases draws.len(),
{
    if draws.len() > 0 {
        lemma_found_is_final(port, draws.drop_first(), answers.drop_first());
    }
}

/// The search ends with the first port that proves available, and no candidate
/// is drawn after it.
pub proof fn law_first_free_port_is_taken(draws: Seq<u16>, answers: Seq<bool>, i: int)
    requires
        draws.len() == answers.len(),
        0 <= i < answers.len(),
        answers[i],
        forall|j: int| 0 <= j < i ==> !(#[trigger] answers[j]),
    ensures
        searched(PortSearch::Drawing, draws, answers) == (PortSearch::Found { port: draws[i] }),
        draws_made(PortSearch::Drawing, draws, answers) == i + 1,
    decreases draws.len(),
{
    let rest = answers.drop_first();
    if i == 0 {
        lemma_found_is_final(draws[0], draws.drop_first(), rest);
    } else {
        assert(!answers[0]);
        assert forall|j: int| 0 <= j < i - 1 implies !(#[trigger] rest[j]) by {
            assert(!answers[j + 1]);
        }
        law_first_free_port_is_taken(draws.drop_first(), rest, i - 1);
    }
}

/// As long as no port proves available, the search goes on.
pub proof fn law_taken_ports_are_passed_over(draws: Seq<u16>, answers: Seq<bool>)
    requires
        draws.len() == answers.len(),
        forall|j: int| 0 <= j < answers.len() ==> !(#[trigger] answers[j]),
    ensures
        searched(PortSearch::Drawing, draws, answers) == PortSearch::Drawing,
        draws_made(PortSearch::Drawing, draws, answers) == draws.len(),
    decreases draws.len(),
{
    if draws.len() > 0 {
        let rest = answers.drop_first();
        assert(!answers[0]);
        assert forall|j: int| 0 <= j < rest.len() implies !(#[trigger] rest[j]) by {
            assert(!answers[j + 1]);
        }
        law_taken_ports_are_passed_over(draws.drop_first(), rest);
    }
}

/// Where only ports from `MIN_PORT` up are drawn, no other one is found.
pub proof fn law_found_port_is_unprivileged(draws: Seq<u16>, answers: Seq<bool>, port: u16)
    requires
        draws.len() == answers.len(),
        forall|j: int| 0 <= j < draws.len() ==> #[trigger] draws[j] >= MIN_PORT,
        searched(PortSearch::Drawing, draws, answers) == (PortSearch::Found { port }),
    ensures
        port >= MIN_PORT,
    decreases draws.len(),
{
    if draws.len() > 0 {
        let rest = draws.drop_first();
        assert(draws[0] >= MIN_PORT);
        assert forall|j: int| 0 <= j < rest.len() implies #[trigger] rest[j] >= MIN_PORT by {
            assert(draws[j + 1] >= MIN_PORT);
        }
        if answers[0] {
            lemma_found_is_final(draws[0], rest, answers.drop_first());
        } else {
            law_found_port_is_unprivileged(rest, answers.drop_first(), port);
        }
    }
}

/// A candidate is drawn from all the ports that need no privilege, 1024 to 65535,
/// and a search that waits for none is left as it is.
pub proof fn law_draw_is_from_all_unprivileged_ports(search: PortSearch, after: PortSearch)
    requires
        call_ensures(PortSearch::draw, (search,), after),
    ensures
        search is Drawing ==> after is Trying && 1024 <= after->Trying_port <= 65535
            && drawn_from(1024, 65535, after->Trying_port),
        search !is Drawing ==> after == search,
{
}

/// A search begins with a candidate that is drawn from all the ports that need no
/// privilege.
pub proof fn law_search_begins_with_a_candidate(search: PortSearch)
    requires
        call_ensures(generate_random_port, (), search),
    ensures
        search is Trying && 1024 <= search->Trying_port <= 65535,
        drawn_from(1024, 65535, search->Trying_port),
{
}

/// A round of the search, a draw and an answer, ends with the very port that was
/// drawn where it is available, and where it began where it is not.
pub proof fn law_round_ends_with_the_port_that_was_drawn(
    candidate: u16,
    trying: PortSearch,
    available: bool,
    after: PortSearch,
)
    requires
        call_ensures(PortSearch::drawn, (PortSearch::Drawing, candidate), trying),
        call_ensures(PortSearch::answered, (trying, available), after),
    ensures
        trying == (PortSearch::Trying { port: candidate }),
        available ==> after == (PortSearch::Found { port: candidate }),
        !available ==> after == PortSearch::Drawing,
{
}

/// What the search does not wait for leaves it as it is: a candidate while one is
/// being tried, an answer while there is none, and both once a port was found.
pub proof fn law_search_takes_in_only_what_it_waits_for(
    search: PortSearch,
    candidate: u16,
    drawn: PortSearch,
    available: bool,
    answered: PortSearch,
)
    requires
        call_ensures(PortSearch::drawn, (search, candidate), drawn),
        call_ensures(PortSearch::answered, (search, available), answered),
    ensures
        search !is Drawing ==> drawn == search,
        search !is Trying ==> answered == search,
{
}

} // verus!
