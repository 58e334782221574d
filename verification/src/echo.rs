//! The echo handler: every request is answered with its own text and the
//! number of requests served so far, this one included.

use std::sync::Arc;
use vstd::prelude::*;
use vstd::rwlock::{RwLock, RwLockPredicate};

verus! {

/// The decimal digit of value `d`.
pub open spec fn digit_char(d: nat) -> char {
    if d == 0 {
        '0'
    } else if d == 1 {
        '1'
    } else if d == 2 {
        '2'
    } else if d == 3 {
        '3'
    } else if d == 4 {
        '4'
    } else if d == 5 {
        '5'
    } else if d == 6 {
        '6'
    } else if d == 7 {
        '7'
    } else if d == 8 {
        '8'
    } else {
        '9'
    }
}

/// `n` in decimal, without leading zeros.
pub open spec fn decimal(n: nat) -> Seq<char>
    decreases n,
{
    if n < 10 {
        seq![digit_char(n)]
    } else {
        decimal(n / 10).push(digit_char(n % 10))
    }
}

/// `n` in decimal, with a leading `-` where it is negative.
pub open spec fn signed_decimal(n: int) -> Seq<char> {
    if n < 0 {
        seq!['-'] + decimal((-n) as nat)
    } else {
        decimal(n as nat)
    }
}

/// The response line to `request` when it is the `count`-th request served.
pub open spec fn response(request: Seq<char>, count: int) -> Seq<char> {
    request + seq![' ', '-', ' '] + signed_decimal(count)
}

fn digit_str(d: u32) -> (s: &'static str)
    requires
        d < 10,
    ensures
        s@ == seq![digit_char(d as nat)],
{
    proof {
        reveal_strlit("0");
        reveal_strlit("1");
        reveal_strlit("2");
        reveal_strlit("3");
        reveal_strlit("4");
        reveal_strlit("5");
        reveal_strlit("6");
        reveal_strlit("7");
        reveal_strlit("8");
        reveal_strlit("9");
    }
    let s = if d == 0 {
        "0"
    } else if d == 1 {
        "1"
    } else if d == 2 {
        "2"
    } else if d == 3 {
        "3"
    } else if d == 4 {
        "4"
    } else if d == 5 {
        "5"
    } else if d == 6 {
        "6"
    } else if d == 7 {
        "7"
    } else if d == 8 {
        "8"
    } else {
        "9"
    };
    assert(s@ =~= seq![digit_char(d as nat)]);
    s
}

/// Writes `n` in decimal.
pub fn decimal_string(n: u32) -> (text: String)
    ensures
        text@ == decimal(n as nat),
    decreases n,
{
    if n < 10 {
        digit_str(n).to_owned()
    } else {
        let mut text = decimal_string(n / 10);
        text.append(digit_str(n % 10));
        assert(text@ =~= decimal(n as nat));
        text
    }
}

/// Writes `n` in decimal, with its sign where it is negative.
pub fn signed_decimal_string(n: i32) -> (text: String)
    ensures
        text@ == signed_decimal(n as int),
{
    if n < 0 {
        let magnitude: u32 = (-(n as i64)) as u32;
        proof {
            reveal_strlit("-");
        }
        let mut text = "-".to_owned();
        let digits = decimal_string(magnitude);
        text.append(digits.as_str());
        assert(text@ =~= signed_decimal(n as int));
        text
    } else {
        decimal_string(n as u32)
    }
}

/// Builds the response line to `request` when it is the `count`-th request
/// served: the request's text, `" - "`, and the count in decimal.
pub fn respond(request: &str, count: i32) -> (line: String)
    ensures
        line@ == response(request@, count as int),
{
    proof {
        reveal_strlit(" - ");
    }
    let mut line = request.to_owned();
    line.append(" - ");
    let digits = signed_decimal_string(count);
    line.append(digits.as_str());
    assert(line@ =~= response(request@, count as int));
    line
}

/// How many requests have been served since the counter was made.
pub struct EchoStats {
    count: i32,
}

impl EchoStats {
    /// The number of requests served.
    pub closed spec fn served(&self) -> int {
        self.count as int
    }

    /// A counter never goes below zero.
    pub closed spec fn wf(&self) -> bool {
        self.count >= 0
    }

    /// A counter that has served nothing yet.
    pub fn new() -> (stats: EchoStats)
        ensures
            stats.wf(),
            stats.served() == 0,
    {
        EchoStats { count: 0 }
    }

    /// A counter that has already served `served` requests. There is none
    /// for a negative number.
    pub fn starting_at(served: i32) -> (res: Option<EchoStats>)
        ensures
            served < 0 ==> res is None,
            served >= 0 ==> (res matches Some(stats) && stats.wf() && stats.served() == served),
    {
        if served < 0 {
            None
        } else {
            Some(EchoStats { count: served })
        }
    }

    /// The number of requests served.
    pub fn count(&self) -> (count: i32)
        ensures
            count == self.served(),
    {
        self.count
    }

    /// Whether the counter has reached the largest count it can hold.
    pub fn is_exhausted(&self) -> (full: bool)
        ensures
            full == (self.served() >= i32::MAX),
    {
        self.count == i32::MAX
    }

    /// Counts one more request and returns the new count.
    pub fn record(&mut self) -> (count: i32)
        requires
            old(self).wf(),
            old(self).served() < i32::MAX,
        ensures
            final(self).wf(),
            final(self).served() == old(self).served() + 1,
            count == final(self).served(),
    {
        self.count = self.count + 1;
        self.count
    }

    /// Serves `request` on this counter: counts it and builds its response
    /// from the new count. Once the counter can count no further, nothing is
    /// counted and there is no response.
    pub fn serve(&mut self, request: &str) -> (res: Option<String>)
        requires
            old(self).wf(),
        ensures
            final(self).wf(),
            old(self).served() < i32::MAX ==> {
                &&& final(self).served() == old(self).served() + 1
                &&& res matches Some(line)
                &&& line@ == response(request@, old(self).served() + 1)
            },
            old(self).served() >= i32::MAX ==> {
                &&& final(self).served() == old(self).served()
                &&& res is None
            },
    {
        if self.is_exhausted() {
            None
        } else {
            let count = self.record();
            Some(respond(request, count))
        }
    }
}

/// Each state of `run` but the first is what `record` made of the one
/// before it.
pub open spec fn recorded_run(run: Seq<EchoStats>) -> bool {
    forall|i: int, j: int|
        0 <= i && j == i + 1 && j < run.len() ==> (#[trigger] run[j]).served() == (
        #[trigger] run[i]).served() + 1
}

/// Requests that take the counter one after another are numbered without
/// gaps in the order in which they took it: a later one gets a count that is
/// larger by exactly the number of requests counted in between. So the
/// counts are distinct and strictly increasing.
pub proof fn lemma_counts_increase_without_gaps(run: Seq<EchoStats>, i: int, j: int)
    requires
        recorded_run(run),
        0 <= i <= j < run.len(),
    ensures
        run[j].served() == run[i].served() + (j - i),
        i < j ==> run[i].served() < run[j].served(),
    decreases j - i,
{
    if i < j {
        lemma_counts_increase_without_gaps(run, i, j - 1);
        assert(run[j].served() == run[j - 1].served() + 1);
    }
}

/// What the lock around the shared counter admits: well-formed counters
/// that have served at least `floor` requests. The counter only ever goes
/// up, so what it had served when the lock was made stays a lower bound.
pub struct SoundStats {
    pub floor: int,
}

impl RwLockPredicate<EchoStats> for SoundStats {
    open spec fn inv(self, v: EchoStats) -> bool {
        v.wf() && v.served() >= self.floor
    }
}

/// The echo service. Its clones share one counter, behind one lock.
#[derive(Clone)]
pub struct Echo {
    stats: Arc<RwLock<EchoStats, SoundStats>>,
}

impl Echo {
    /// The number of requests that the shared counter had served when the
    /// service was made. Every count that the service gives out is above it.
    pub closed spec fn floor(&self) -> int {
        self.stats.pred().floor
    }

    /// A service whose counter has served nothing yet: its counts start
    /// above zero.
    pub fn new() -> (echo: Echo)
        ensures
            echo.floor() == 0,
    {
        Echo::with_stats(EchoStats::new())
    }

    /// A service that goes on counting from `stats`: its counts start above
    /// what `stats` has served.
    pub fn with_stats(stats: EchoStats) -> (echo: Echo)
        requires
            stats.wf(),
        ensures
            echo.floor() == stats.served(),
    {
        let ghost pred = SoundStats { floor: stats.served() };
        Echo { stats: Arc::new(RwLock::new(stats, Ghost(pred))) }
    }

    /// Serves one request: under the lock the counter goes up by one, and the
    /// response carries the request's text and the new count. Other holders
    /// of the counter may have served requests in between, so the count is
    /// whatever the counter says: at least one, and above the service's
    /// floor. `None` is returned, and the counter left as it is, once it can
    /// count no further.
    pub fn call(&self, req: String) -> (res: Option<String>)
        ensures
            res matches Some(line) ==> exists|count: int|
                1 <= count <= i32::MAX && self.floor() < count && line@ == #[trigger] response(
                    req@,
                    count,
                ),
    {
        let (mut stats, handle) = self.stats.acquire_write();
        let res = stats.serve(req.as_str());
        handle.release_write(stats);
        res
    }
}

} // verus!
