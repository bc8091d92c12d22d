//! Warp auth-token health: when to check the token, what a cached verdict means, what a fresh
//! check concludes and what is remembered of it.
use vstd::prelude::*;
use crate::time::{Timestamp, seconds_between};
use crate::json::str_eq;
use crate::text::{chars_of, string_of, append_chars};

verus! {

/// Status of the Warp authentication token.
#[derive(Debug, Clone, PartialEq, Eq)]
pub enum WarpTokenStatus {
    /// The token is valid and working.
    Valid,
    /// No token is configured.
    NotConfigured,
    /// A token exists but is expired or invalid.
    Expired,
    /// The token could not be checked (network trouble and the like).
    Error(String),
}

/// A token status as the contracts see it.
pub ghost enum StatusView {
    Valid,
    NotConfigured,
    Expired,
    Error(Seq<char>),
}

impl View for WarpTokenStatus {
    type V = StatusView;

    open spec fn view(&self) -> StatusView {
        match self {
            WarpTokenStatus::Valid => StatusView::Valid,
            WarpTokenStatus::NotConfigured => StatusView::NotConfigured,
            WarpTokenStatus::Expired => StatusView::Expired,
            WarpTokenStatus::Error(m) => StatusView::Error(m@),
        }
    }
}

/// The remembered outcome of the last token check.
#[derive(Debug, Clone)]
pub struct WarpHealthCache {
    pub last_check: Timestamp,
    pub status: String,
    pub last_sync: Option<Timestamp>,
    pub conversations_synced: Option<usize>,
}

/// How often the token is checked at most, in seconds.
pub const CHECK_INTERVAL_SECS: i64 = 86400;

impl WarpHealthCache {
    /// A new check is due: more than a day has passed since the last one.
    pub fn should_check(&self, now: Timestamp) -> (r: bool)
        requires
            now.wf(),
            self.last_check.wf(),
        ensures
            r == (seconds_between(now, self.last_check) > CHECK_INTERVAL_SECS),
    {
        now.seconds_since(&self.last_check) > CHECK_INTERVAL_SECS
    }
}

/// Whether the token should be checked at `now`, given the remembered check if any: always
/// without one, otherwise once a day.
pub fn should_check_warp_token(cache: &Option<WarpHealthCache>, now: Timestamp) -> (r: bool)
    requires
        now.wf(),
        cache matches Some(c) ==> c.last_check.wf(),
    ensures
        r == match cache {
            None => true,
            Some(c) => seconds_between(now, c.last_check) > CHECK_INTERVAL_SECS,
        },
{
    match cache {
        None => true,
        Some(c) => c.should_check(now),
    }
}

/// The status a remembered verdict stands for.
pub open spec fn cached_status_spec(status: Seq<char>) -> StatusView {
    if status == "valid"@ {
        StatusView::Valid
    } else if status == "expired"@ {
        StatusView::Expired
    } else if status == "not_configured"@ {
        StatusView::NotConfigured
    } else {
        StatusView::Error("Unknown cached status"@)
    }
}

/// The status a remembered verdict stands for; anything unrecognised is an error.
pub fn cached_status(status: &str) -> (r: WarpTokenStatus)
    ensures
        r@ == cached_status_spec(status@),
{
    if str_eq(status, "valid") {
        WarpTokenStatus::Valid
    } else if str_eq(status, "expired") {
        WarpTokenStatus::Expired
    } else if str_eq(status, "not_configured") {
        WarpTokenStatus::NotConfigured
    } else {
        WarpTokenStatus::Error("Unknown cached status".to_owned())
    }
}

/// The verdict a recent enough check left behind, if there is one: a check at `now` is not due.
pub fn recent_verdict(cache: &Option<WarpHealthCache>, now: Timestamp) -> (r: Option<WarpTokenStatus>)
    requires
        now.wf(),
        cache matches Some(c) ==> c.last_check.wf(),
    ensures
        r is Some <==> (cache matches Some(c) && seconds_between(now, c.last_check) <= CHECK_INTERVAL_SECS),
        r matches Some(s) ==> (cache matches Some(c) && s@ == cached_status_spec(c.status@)),
{
    match cache {
        Some(c) => {
            if !c.should_check(now) {
                Some(cached_status(c.status.as_str()))
            } else {
                None
            }
        },
        None => None,
    }
}

/// What a token check ends in: the status, and the record to remember, if any.
pub struct HealthOutcome {
    pub status: WarpTokenStatus,
    pub remember: Option<WarpHealthCache>,
}

/// The outcome when no token is configured at `now`: remembered as `not_configured`.
pub fn outcome_without_token(now: Timestamp) -> (r: HealthOutcome)
    ensures
        r.status == WarpTokenStatus::NotConfigured,
        r.remember matches Some(c) && c.last_check == now && c.status@ == "not_configured"@ && c.last_sync is None
            && c.conversations_synced is None,
{
    HealthOutcome {
        status: WarpTokenStatus::NotConfigured,
        remember: Some(WarpHealthCache {
            last_check: now,
            status: "not_configured".to_owned(),
            last_sync: None,
            conversations_synced: None,
        }),
    }
}

/// The outcome of testing the token at `now`: `Ok(true)` when the service accepted it (valid,
/// remembered), `Ok(false)` when it refused it (expired, remembered), `Err(reason)` when it could
/// not be asked (an error, not remembered).
pub fn outcome_of_test(test: Result<bool, String>, now: Timestamp) -> (r: HealthOutcome)
    ensures
        match test {
            Ok(true) => r.status == WarpTokenStatus::Valid && (r.remember matches Some(c) && c.last_check == now
                && c.status@ == "valid"@ && c.last_sync is None && c.conversations_synced is None),
            Ok(false) => r.status == WarpTokenStatus::Expired && (r.remember matches Some(c) && c.last_check == now
                && c.status@ == "expired"@ && c.last_sync is None && c.conversations_synced is None),
            Err(e) => (r.status matches WarpTokenStatus::Error(m) && m@ == e@) && r.remember is None,
        },
{
    match test {
        Ok(true) => HealthOutcome {
            status: WarpTokenStatus::Valid,
            remember: Some(WarpHealthCache {
                last_check: now,
                status: "valid".to_owned(),
                last_sync: None,
                conversations_synced: None,
            }),
        },
        Ok(false) => HealthOutcome {
            status: WarpTokenStatus::Expired,
            remember: Some(WarpHealthCache {
                last_check: now,
                status: "expired".to_owned(),
                last_sync: None,
                conversations_synced: None,
            }),
        },
        Err(e) => HealthOutcome { status: WarpTokenStatus::Error(e), remember: None },
    }
}

/// Where a token may be found in one configuration directory: the `warp.auth_token` string of its
/// `config.toml`, and the contents of its `warp_token` file.
pub struct TokenSources {
    pub config_token: Option<String>,
    pub token_file: Option<String>,
}

/// The token found first: directory by directory, the configuration's token before the file's.
pub open spec fn first_token(dirs: Seq<TokenSources>) -> Option<Seq<char>>
    decreases dirs.len(),
{
    if dirs.len() == 0 {
        None
    } else {
        match dirs[0].config_token {
            Some(t) => Some(t@),
            None => match dirs[0].token_file {
                Some(t) => Some(t@),
                None => first_token(dirs.drop_first()),
            },
        }
    }
}

/// Picks the token found first (see [`first_token`]).
pub fn pick_warp_token(dirs: &[TokenSources]) -> (r: Option<String>)
    ensures
        match r {
            Some(t) => first_token(dirs@) == Some(t@),
            None => first_token(dirs@) is None,
        },
{
    let mut k: usize = 0;
    proof {
        assert(dirs@.skip(0) =~= dirs@);
    }
    while k < dirs.len()
        invariant
            k <= dirs.len(),
            first_token(dirs@) == first_token(dirs@.skip(k as int)),
        decreases dirs.len() - k,
    {
        proof {
            assert(dirs@.skip(k as int).drop_first() =~= dirs@.skip(k + 1));
            assert(dirs@.skip(k as int)[0] == dirs@[k as int]);
        }
        match &dirs[k].config_token {
            Some(t) => return Some(t.clone()),
            None => {},
        }
        match &dirs[k].token_file {
            Some(t) => return Some(t.clone()),
            None => {},
        }
        k = k + 1;
    }
    proof {
        assert(dirs@.skip(k as int).len() == 0);
    }
    None
}

/// Whether `needle` occurs in `hay` as a contiguous run.
pub open spec fn contains_text(hay: Seq<char>, needle: Seq<char>) -> bool {
    exists|i: int| 0 <= i <= hay.len() - needle.len() && #[trigger] hay.subrange(i, i + needle.len()) == needle
}

/// Whether `needle` occurs in `hay` (what `str::contains` with a `&str` tests).
pub fn text_contains(hay: &str, needle: &str) -> (r: bool)
    ensures
        r == contains_text(hay@, needle@),
{
    let h = chars_of(hay);
    let n = chars_of(needle);
    if n.len() > h.len() {
        proof {
            assert forall|i: int| 0 <= i <= h@.len() - n@.len() implies #[trigger] h@.subrange(i, i + n@.len()) != n@ by {}
        }
        return false;
    }
    let mut i: usize = 0;
    while i <= h.len() - n.len()
        invariant
            n.len() <= h.len(),
            i <= h.len() - n.len() + 1,
            h@ == hay@,
            n@ == needle@,
            forall|j: int| 0 <= j < i ==> #[trigger] h@.subrange(j, j + n@.len()) != n@,
        decreases h.len() - i,
    {
        let mut k: usize = 0;
        let mut same = true;
        while k < n.len()
            invariant
                k <= n.len(),
                i + n.len() <= h.len(),
                same == (forall|q: int| 0 <= q < k ==> h@[i + q] == n@[q]),
            decreases n.len() - k,
        {
            if h[i + k] != n[k] {
                same = false;
            }
            k = k + 1;
        }
        if same {
            proof {
                assert(h@.subrange(i as int, i + n@.len()) =~= n@);
            }
            return true;
        }
        proof {
            let q = choose|q: int| 0 <= q < n.len() && h@[i + q] != n@[q];
            assert(h@.subrange(i as int, i + n@.len())[q] != n@[q]);
        }
        i = i + 1;
    }
    false
}

/// Whether this runs inside the Warp terminal, given the `TERM_PROGRAM` variable (if set and
/// readable) and whether `WARP_USE_SSH_WRAPPER` is set.
pub fn warp_terminal_detected(term_program: Option<&str>, ssh_wrapper_set: bool) -> (r: bool)
    ensures
        r == ((term_program matches Some(v) && contains_text(v@, "WarpTerminal"@)) || ssh_wrapper_set),
{
    let in_term = match term_program {
        Some(v) => text_contains(v, "WarpTerminal"),
        None => false,
    };
    in_term || ssh_wrapper_set
}

/// What the user is told of a token status: nothing for a valid token; for a missing one, how
/// to set it up, only inside Warp; for an expired one, how to refresh it; for an error, a note
/// (meant for the error stream).
pub open spec fn status_message(status: StatusView, in_warp: bool) -> Seq<Seq<char>> {
    match status {
        StatusView::Valid => Seq::empty(),
        StatusView::NotConfigured => if in_warp {
            seq!["ℹ️  WARP analytics not configured"@, "   Enable with: splitrail warp setup"@]
        } else {
            Seq::empty()
        },
        StatusView::Expired => seq!["⚠️  WARP token expired"@, "   Refresh with: splitrail warp refresh"@],
        StatusView::Error(e) => seq!["Note: Could not check WARP token status: "@ + e],
    }
}

/// The lines the user is told of a token status (see [`status_message`]).
pub fn warp_status_lines(status: &WarpTokenStatus, in_warp: bool) -> (r: Vec<String>)
    ensures
        r@.map_values(|s: String| s@) == status_message(status@, in_warp),
{
    let mut out: Vec<String> = Vec::new();
    match status {
        WarpTokenStatus::Valid => {},
        WarpTokenStatus::NotConfigured => {
            if in_warp {
                out.push("ℹ️  WARP analytics not configured".to_owned());
                out.push("   Enable with: splitrail warp setup".to_owned());
            }
        },
        WarpTokenStatus::Expired => {
            out.push("⚠️  WARP token expired".to_owned());
            out.push("   Refresh with: splitrail warp refresh".to_owned());
        },
        WarpTokenStatus::Error(e) => {
            let mut line = chars_of("Note: Could not check WARP token status: ");
            let ec = chars_of(e.as_str());
            append_chars(&mut line, ec.as_slice());
            out.push(string_of(line.as_slice()));
        },
    }
    proof {
        assert(out@.map_values(|s: String| s@) =~= status_message(status@, in_warp));
    }
    out
}

} // verus!
