//! The request budget: at most a fixed number of requests in each window of
//! one second. The client here is the state of that budget and the identity
//! that every request carries. It decides whether a request may go out now or
//! has to wait, and says what is to be sent; the caller owns the clock, the
//! sleeping and the connection. Times are nanoseconds on a clock that does not
//! go backwards.

use vstd::prelude::*;

verus! {

/// The length of a window, in nanoseconds.
pub const WINDOW_NANOS: u64 = 1_000_000_000;

/// The number of requests that the service accepts in one window.
pub const REQUEST_LIMIT: u8 = 10;

/// The window that requests are counted in.
#[derive(Clone, Copy, Debug, PartialEq, Eq, Structural)]
pub struct RateWindow {
    /// When the window began.
    pub window_start: u64,
    /// The requests counted in it so far.
    pub count: u8,
    /// The requests that one window admits.
    pub limit: u8,
}

/// What the budget says to a request.
#[derive(Clone, Copy, Debug, PartialEq, Eq, Structural)]
pub enum Admission {
    /// The request was counted and may go out at once.
    Proceed,
    /// The window is used up. The request waits this long, and is counted when
    /// the caller reports that the wait is over.
    Wait { nanos: u64 },
}

impl RateWindow {
    /// The time since the window began; none if the clock reads earlier.
    pub open spec fn elapsed(self, now: u64) -> int {
        if now >= self.window_start {
            now - self.window_start
        } else {
            0
        }
    }

    /// The window is over at `now`.
    pub open spec fn expired(self, now: u64) -> bool {
        self.elapsed(now) >= WINDOW_NANOS
    }

    /// A window that begins at `now` with nothing counted.
    pub open spec fn restarted(self, now: u64) -> RateWindow {
        RateWindow { window_start: now, count: 0, limit: self.limit }
    }

    /// The window that a request at `now` is held against: this one, or a new
    /// one if this one is over.
    pub open spec fn current(self, now: u64) -> RateWindow {
        if self.expired(now) {
            self.restarted(now)
        } else {
            self
        }
    }

    /// The window that a request at `now` is held against has no room left.
    pub open spec fn exhausted(self, now: u64) -> bool {
        self.current(now).count >= self.limit
    }

    /// What is left of the window at `now`.
    pub open spec fn remaining(self, now: u64) -> int {
        if self.expired(now) {
            0
        } else {
            WINDOW_NANOS - self.elapsed(now)
        }
    }

    /// The answer to a request at `now`.
    pub open spec fn admission(self, now: u64) -> Admission {
        if self.exhausted(now) {
            Admission::Wait { nanos: self.remaining(now) as u64 }
        } else {
            Admission::Proceed
        }
    }

    /// The window after a request at `now` was answered: the request is
    /// counted unless it has to wait.
    pub open spec fn admitted(self, now: u64) -> RateWindow {
        let held = self.current(now);
        if self.exhausted(now) {
            held
        } else {
            RateWindow { count: (held.count + 1) as u8, ..held }
        }
    }

    /// The window after a wait that ended at `now`: a new window with the
    /// request that waited as its first.
    pub open spec fn resumed(self, now: u64) -> RateWindow {
        RateWindow { window_start: now, count: 1, limit: self.limit }
    }

    /// The window after requests at each of `times`, in order, none of which
    /// had to wait.
    pub open spec fn after_all(self, times: Seq<u64>) -> RateWindow
        decreases times.len(),
    {
        if times.len() == 0 {
            self
        } else {
            self.after_all(times.drop_last()).admitted(times.last())
        }
    }

    /// A window that begins at `now` and admits `limit` requests.
    pub fn new(now: u64, limit: u8) -> (window: RateWindow)
        ensures
            window == (RateWindow { window_start: now, count: 0, limit }),
    {
        RateWindow { window_start: now, count: 0, limit }
    }

    /// Begins a new window at `now`.
    pub fn threshold_reset(&mut self, now: u64)
        ensures
            *final(self) == old(self).restarted(now),
    {
        self.window_start = now;
        self.count = 0;
    }

    /// Answers a request made at `now`. A window that is over gives way to a
    /// new one. If the window then has room the request is counted and may go
    /// out; otherwise it has to wait for the rest of the window and is not
    /// counted yet.
    pub fn threshold_status(&mut self, now: u64) -> (admission: Admission)
        ensures
            admission == old(self).admission(now),
            *final(self) == old(self).admitted(now),
            admission is Proceed ==> final(self).count <= final(self).limit,
            admission matches Admission::Wait { nanos } ==> nanos <= WINDOW_NANOS,
    {
        let elapsed: u64 = if now >= self.window_start {
            now - self.window_start
        } else {
            0
        };
        if elapsed >= WINDOW_NANOS {
            self.threshold_reset(now);
        }
        if self.count >= self.limit {
            let nanos: u64 = if elapsed >= WINDOW_NANOS {
                0
            } else {
                WINDOW_NANOS - elapsed
            };
            return Admission::Wait { nanos };
        }
        self.count = self.count + 1;
        Admission::Proceed
    }

    /// Reports that the wait which `threshold_status` asked for ended at
    /// `now`: a new window begins, and the request that waited is its first.
    pub fn resume(&mut self, now: u64)
        ensures
            *final(self) == old(self).resumed(now),
    {
        self.threshold_reset(now);
        self.count = 1;
    }
}

/// A request as it is to be sent: the address, the query parameters in order,
/// and the identity to send as user agent.
#[derive(Clone, Debug)]
pub struct Request {
    pub url: String,
    pub params: Vec<(String, String)>,
    pub user_agent: String,
}

/// The answer to a fetch: whether to wait first, and what to send.
#[derive(Clone, Debug)]
pub struct Fetch {
    pub admission: Admission,
    pub request: Request,
}

/// The client's side of the service's access policy: who is asking, and how
/// much of the current window is used.
#[derive(Clone, Debug)]
pub struct SecClient {
    /// The contact address sent with every request.
    pub header: String,
    /// The window that requests are counted in.
    pub window: RateWindow,
}

impl SecClient {
    /// The contact address that requests are sent under.
    pub open spec fn contact() -> Seq<char> {
        "my.email@address.com"@
    }

    /// A client whose first window begins at `now`.
    pub fn new(now: u64) -> (client: SecClient)
        ensures
            client.header@ == SecClient::contact(),
            client.window == (RateWindow { window_start: now, count: 0, limit: REQUEST_LIMIT }),
    {
        SecClient { header: "my.email@address.com".to_owned(), window: RateWindow::new(now, REQUEST_LIMIT) }
    }

    /// Plans a request for `url` made at `now`: the budget's answer, and the
    /// request to send under the client's contact address.
    pub fn get(&mut self, url: &str, now: u64) -> (fetch: Fetch)
        ensures
            fetch.admission == old(self).window.admission(now),
            final(self).window == old(self).window.admitted(now),
            final(self).header == old(self).header,
            fetch.request.url@ == url@,
            fetch.request.params@.len() == 0,
            fetch.request.user_agent@ == old(self).header@,
    {
        self.get_with_params(url, Vec::new(), now)
    }

    /// Plans a request for `url` with query parameters, made at `now`.
    pub fn get_with_params(&mut self, url: &str, params: Vec<(String, String)>, now: u64) -> (fetch:
        Fetch)
        ensures
            fetch.admission == old(self).window.admission(now),
            final(self).window == old(self).window.admitted(now),
            final(self).header == old(self).header,
            fetch.request.url@ == url@,
            fetch.request.params == params,
            fetch.request.user_agent@ == old(self).header@,
    {
        let admission = self.window.threshold_status(now);
        let request = Request { url: url.to_owned(), params, user_agent: self.header.clone() };
        Fetch { admission, request }
    }

    /// Reports that the wait which the last fetch asked for ended at `now`.
    pub fn resume(&mut self, now: u64)
        ensures
            final(self).window == old(self).window.resumed(now),
            final(self).header == old(self).header,
    {
        self.window.resume(now);
    }
}

/// Requests made before the window is over and while it has room are all
/// admitted, each one counted, and leave the window's start where it was.
pub proof fn lemma_burst_is_counted(window: RateWindow, times: Seq<u64>)
    requires
        window.count + times.len() <= window.limit,
        forall|i: int| 0 <= i < times.len() ==> !window.expired(#[trigger] times[i]),
    ensures
        window.after_all(times) == (RateWindow {
            count: (window.count + times.len()) as u8,
            ..window
        }),
        forall|k: int|
            0 <= k < times.len() ==> (#[trigger] window.after_all(times.take(k))).admission(
                times[k],
            ) == Admission::Proceed,
    decreases times.len(),
{
    if times.len() > 0 {
        let init = times.drop_last();
        lemma_burst_is_counted(window, init);
        assert forall|k: int| 0 <= k < times.len() implies (#[trigger] window.after_all(
            times.take(k),
        )).admission(times[k]) == Admission::Proceed by {
            if k < init.len() {
                assert(times.take(k) == init.take(k));
                assert(times[k] == init[k]);
            } else {
                assert(times.take(k) == init);
            }
        }
    }
}

/// Once a window has admitted as many requests as its limit, all of them
/// within less than a second, the next request within that second has to wait
/// for at least the rest of the second, and the window begins anew the moment
/// the wait is over.
pub proof fn lemma_limit_then_wait(window: RateWindow, times: Seq<u64>, next: u64, woken: u64)
    requires
        window.count + times.len() == window.limit,
        forall|i: int| 0 <= i < times.len() ==> !window.expired(#[trigger] times[i]),
        !window.expired(next),
    ensures
        window.after_all(times).count == window.limit,
        window.after_all(times).admission(next) == (Admission::Wait {
            nanos: (WINDOW_NANOS - window.elapsed(next)) as u64,
        }),
        window.after_all(times).admitted(next).resumed(woken) == (RateWindow {
            window_start: woken,
            count: 1,
            limit: window.limit,
        }),
{
    lemma_burst_is_counted(window, times);
}

} // verus!
