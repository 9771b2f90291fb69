//! Connecting the last strategy after Windows autostart, with retries while
//! the system settles. Waiting and starting the strategy are the caller's
//! part; this module decides whether to connect, what to try next and the
//! messages.

use super::strategy::{find_strategy, index_of_id};
use super::{strategy_views, Strategy};
use crate::app_prefs::AppPrefs;
use crate::launch;
use crate::text;
use crate::text::{cat2, cat3, chars_of, strs};
use vstd::prelude::*;

verus! {

pub const ATTEMPTS: u32 = 6;

pub const RETRY_MS: u64 = 2500;

/// The wait before the first attempt.
pub const FIRST_WAIT_MS: u64 = 800;

/// The session was started by autostart (the scheduler's
/// `--from-autostart`, or `--minimized`).
pub fn is_autostart_session(args: &Vec<String>) -> (res: bool)
    ensures
        res == (launch::has_arg(strs(args@), "--from-autostart"@) || launch::has_arg(
            strs(args@),
            "--minimized"@,
        )),
{
    launch::from_autostart(args) || launch::minimized(args)
}

/// The message when no strategy was saved.
pub open spec fn nothing_saved_message() -> Seq<char> {
    "Нет сохранённой стратегии. Подключитесь вручную один раз — затем автоподключение запомнит выбор."@
}

/// Which strategy to connect after autostart: none outside an autostart
/// session or with auto-connect off; the saved one when there is a
/// non-empty one; otherwise an error.
pub fn autostart_target(is_autostart: bool, prefs: &AppPrefs) -> (res: Result<Option<String>, String>)
    ensures
        !is_autostart ==> res == Ok::<Option<String>, String>(None),
        is_autostart && !prefs.auto_connect_on_autostart ==> res == Ok::<Option<String>, String>(
            None,
        ),
        is_autostart && prefs.auto_connect_on_autostart ==> match prefs.last_strategy_id {
            Some(id) => if id@.len() > 0 {
                res matches Ok(Some(x)) && x@ == id@
            } else {
                res matches Err(e) && e@ == nothing_saved_message()
            },
            None => res matches Err(e) && e@ == nothing_saved_message(),
        },
{
    if !is_autostart || !prefs.auto_connect_on_autostart {
        return Ok(None);
    }
    match &prefs.last_strategy_id {
        Some(id) => {
            let c = chars_of(id.as_str());
            if c.len() > 0 {
                return Ok(Some(id.clone()));
            }
        },
        None => {},
    }
    Err(
        text::owned(
            "Нет сохранённой стратегии. Подключитесь вручную один раз — затем автоподключение запомнит выбор.",
        ),
    )
}

/// The saved strategy must be one of the current engine's strategies.
pub fn check_saved_strategy(strategies: &Vec<Strategy>, id: &str) -> (res: Result<(), String>)
    ensures
        (index_of_id(strategy_views(strategies@), id@) is Some) <==> res is Ok,
        res matches Err(e) ==> e@ == "Сохранённая стратегия «"@ + id@
            + "» недоступна для текущего ядра. Подключите нужную стратегию вручную один раз."@,
{
    if find_strategy(strategies, id).is_ok() {
        Ok(())
    } else {
        Err(
            cat3(
                "Сохранённая стратегия «",
                id,
                "» недоступна для текущего ядра. Подключите нужную стратегию вручную один раз.",
            ),
        )
    }
}

/// What to do next while connecting.
#[derive(Debug)]
pub enum ConnectAction {
    /// Wait `wait_ms`, check the engine, start the strategy, and report.
    Attempt { wait_ms: u64 },
    /// The strategy runs: return it.
    Connected,
    /// Give up with this message.
    GiveUp(String),
}

/// What happened on an attempt.
#[derive(Debug)]
pub enum ConnectEvent {
    /// The engine is not installed.
    EngineMissing(String),
    /// Starting the strategy failed.
    StartFailed(String),
    /// The strategy was started; `running` when its engine is alive.
    Started { running: bool },
}

/// Where connecting stands after an action: `0` still trying, `1`
/// connected, `2` given up.
pub open spec fn connect_outcome(a: ConnectAction) -> int {
    match a {
        ConnectAction::Attempt { .. } => 0,
        ConnectAction::Connected => 1,
        ConnectAction::GiveUp(_) => 2,
    }
}

/// The attempt was answered by a running strategy.
pub open spec fn connected(e: ConnectEvent) -> bool {
    e matches ConnectEvent::Started { running: true }
}

/// The attempt and the outcome after `event` during attempt `attempt`.
pub open spec fn connect_transition(attempt: int, event: ConnectEvent) -> (int, int) {
    if connected(event) {
        (attempt, 1)
    } else if attempt < ATTEMPTS {
        (attempt + 1, 0)
    } else {
        (attempt, 2)
    }
}

/// The attempt and the outcome after `events`, from the first attempt;
/// events after the end change nothing.
pub open spec fn connect_run(events: Seq<ConnectEvent>) -> (int, int)
    decreases events.len(),
{
    if events.len() == 0 {
        (1, 0)
    } else {
        let prev = connect_run(events.drop_last());
        if prev.1 == 0 {
            connect_transition(prev.0, events.last())
        } else {
            prev
        }
    }
}

/// The first `n` attempts failed.
pub open spec fn failed_first(events: Seq<ConnectEvent>, n: int) -> bool {
    forall|k: int| 0 <= k < n ==> !connected(#[trigger] events[k])
}

/// Reconnecting after autostart makes six attempts: after `n < 6` failed
/// attempts the next one is made, after the sixth failure it gives up, and
/// a running strategy on any of the six ends it connected.
pub proof fn lemma_connect_attempts(events: Seq<ConnectEvent>)
    ensures
        failed_first(events, events.len() as int) && events.len() < ATTEMPTS ==> connect_run(events)
            == (events.len() + 1int, 0int),
        failed_first(events, events.len() as int) && events.len() == ATTEMPTS ==> connect_run(events)
            == (ATTEMPTS as int, 2int),
        events.len() > 0 && events.len() <= ATTEMPTS && failed_first(events, events.len() - 1)
            && connected(events.last()) ==> connect_run(events) == (events.len() as int, 1int),
    decreases events.len(),
{
    if events.len() > 0 {
        let prev = events.drop_last();
        lemma_connect_attempts(prev);
        if failed_first(events, events.len() - 1) {
            assert forall|k: int| 0 <= k < prev.len() implies !connected(#[trigger] prev[k]) by {
                assert(prev[k] == events[k]);
            }
        }
        if failed_first(events, events.len() as int) {
            assert(!connected(events[events.len() - 1]));
        }
    }
}

/// Connecting after autostart: the strategy, the attempt under way (from
/// 1) and the last error.
pub struct AutostartConnect {
    pub id: String,
    pub attempt: u32,
    pub last_err: String,
}

/// The message after the last attempt failed.
pub open spec fn give_up_message(id: Seq<char>, last_err: Seq<char>) -> Seq<char> {
    "Не удалось подключить «"@ + id + "» после автозапуска: "@ + last_err
}

impl AutostartConnect {
    /// The first attempt, after a short wait.
    pub fn start(id: String) -> (res: (AutostartConnect, ConnectAction))
        ensures
            res.0.id == id,
            res.0.attempt == 1,
            res.0.last_err@ == "неизвестная ошибка"@,
            res.1 == (ConnectAction::Attempt { wait_ms: FIRST_WAIT_MS }),
    {
        (
            AutostartConnect { id, attempt: 1, last_err: text::owned("неизвестная ошибка") },
            ConnectAction::Attempt { wait_ms: FIRST_WAIT_MS },
        )
    }

    fn retry(&mut self) -> (res: ConnectAction)
        requires
            1 <= old(self).attempt <= ATTEMPTS,
        ensures
            final(self).id == old(self).id,
            final(self).last_err == old(self).last_err,
            old(self).attempt < ATTEMPTS ==> final(self).attempt == old(self).attempt + 1 && res
                == (ConnectAction::Attempt { wait_ms: RETRY_MS }),
            old(self).attempt == ATTEMPTS ==> final(self).attempt == old(self).attempt && (res matches ConnectAction::GiveUp(
                m,
            ) && m@ == give_up_message(old(self).id@, old(self).last_err@)),
    {
        if self.attempt < ATTEMPTS {
            self.attempt = self.attempt + 1;
            ConnectAction::Attempt { wait_ms: RETRY_MS }
        } else {
            let a = cat3("Не удалось подключить «", self.id.as_str(), "» после автозапуска: ");
            ConnectAction::GiveUp(cat2(a.as_str(), self.last_err.as_str()))
        }
    }

    /// The step after an attempt: a running strategy is connected; a missing
    /// engine, a failed start, or an engine that did not appear becomes the
    /// last error, and the next attempt follows after 2.5 s, up to six
    /// attempts.
    pub fn on_event(&mut self, event: ConnectEvent) -> (res: ConnectAction)
        requires
            1 <= old(self).attempt <= ATTEMPTS,
        ensures
            final(self).id == old(self).id,
            1 <= final(self).attempt <= ATTEMPTS,
            (final(self).attempt as int, connect_outcome(res)) == connect_transition(
                old(self).attempt as int,
                event,
            ),
            match event {
                ConnectEvent::Started { running: true } => res is Connected && final(self).attempt
                    == old(self).attempt,
                _ => {
                    let err = match event {
                        ConnectEvent::EngineMissing(e) => e@,
                        ConnectEvent::StartFailed(e) => e@,
                        _ => "winws не появился после запуска стратегии"@,
                    };
                    &&& final(self).last_err@ == err
                    &&& old(self).attempt < ATTEMPTS ==> final(self).attempt == old(self).attempt
                        + 1 && res == (ConnectAction::Attempt { wait_ms: RETRY_MS })
                    &&& old(self).attempt == ATTEMPTS ==> (res matches ConnectAction::GiveUp(m)
                        && m@ == give_up_message(old(self).id@, err))
                },
            },
    {
        match event {
            ConnectEvent::Started { running: true } => ConnectAction::Connected,
            ConnectEvent::Started { running: false } => {
                self.last_err = text::owned("winws не появился после запуска стратегии");
                self.retry()
            },
            ConnectEvent::EngineMissing(e) => {
                self.last_err = e;
                self.retry()
            },
            ConnectEvent::StartFailed(e) => {
                self.last_err = e;
                self.retry()
            },
        }
    }
}

} // verus!
