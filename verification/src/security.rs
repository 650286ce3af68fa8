//! What a caller may do.

use crate::auth::settings::{asks_for_auth, RawJwtEnv, TokenSource};
use crate::codec::{defaulted, optional, read_defaulted, read_optional, read_required, required};
use crate::error::MacpError;
use crate::json::{is_record, json_parse, parse, JsonView, NumberView};
use crate::json_text::{given, layer, list_views, view_of, Fields, Layer};
use crate::rate_limit::{after_request, let_through, EventLog, RateLimitConfig, MINUTE_NS};
use crate::text::{decimal, has_prefix, parse_usize, strip_prefix, texts};
use crate::text_map::{TextMap, TextSet};
use vstd::prelude::*;

verus! {

// ---------------------------------------------------------------------------
// Identities
// ---------------------------------------------------------------------------

/// Who a caller is and what it may do.
#[derive(Clone, Debug)]
pub struct AuthIdentity {
    pub sender: String,
    /// The modes that it may use; all where it is `None`.
    pub allowed_modes: Option<TextSet>,
    pub can_start_sessions: bool,
    pub max_open_sessions: Option<usize>,
    pub can_manage_mode_registry: bool,
    pub is_observer: bool,
}

/// What an [`AuthIdentity`] holds.
#[verifier::ext_equal]
pub struct AuthIdentityView {
    pub sender: Seq<char>,
    pub allowed_modes: Option<Set<Seq<char>>>,
    pub can_start_sessions: bool,
    pub max_open_sessions: Option<usize>,
    pub can_manage_mode_registry: bool,
    pub is_observer: bool,
}

impl DeepView for AuthIdentity {
    type V = AuthIdentityView;

    open spec fn deep_view(&self) -> AuthIdentityView {
        AuthIdentityView {
            sender: self.sender@,
            allowed_modes: match self.allowed_modes {
                Some(modes) => Some(modes@),
                None => None,
            },
            can_start_sessions: self.can_start_sessions,
            max_open_sessions: self.max_open_sessions,
            can_manage_mode_registry: self.can_manage_mode_registry,
            is_observer: self.is_observer,
        }
    }
}

impl AuthIdentity {
    /// The same identity.
    pub fn copied(&self) -> (r: AuthIdentity)
        ensures
            r.deep_view() == self.deep_view(),
    {
        AuthIdentity {
            sender: self.sender.clone(),
            allowed_modes: match &self.allowed_modes {
                Some(modes) => Some(modes.copied()),
                None => None,
            },
            can_start_sessions: self.can_start_sessions,
            max_open_sessions: self.max_open_sessions,
            can_manage_mode_registry: self.can_manage_mode_registry,
            is_observer: self.is_observer,
        }
    }
}

/// Why a list of tokens cannot be used.
#[derive(Clone, Copy, Debug, PartialEq, Eq, Structural)]
pub enum ConfigError {
    /// The text is no JSON.
    Syntax,
    /// The JSON lists no tokens, or one of them is incomplete.
    Shape,
}

/// The token and the identity that an entry of the list stands for.
pub open spec fn listed_identity(j: JsonView) -> Option<(Seq<char>, AuthIdentityView)> {
    let token = required::<String>(j, 0, "token"@);
    let sender = required::<String>(j, 1, "sender"@);
    let modes = defaulted::<Vec<String>>(j, 2, "allowed_modes"@, seq![]);
    let can_start = defaulted::<bool>(j, 3, "can_start_sessions"@, true);
    let max_open = optional::<usize>(j, 4, "max_open_sessions"@);
    let can_manage = defaulted::<bool>(j, 5, "can_manage_mode_registry"@, false);
    let observer = defaulted::<bool>(j, 6, "is_observer"@, false);
    if is_record(j, 7) && token is Some && sender is Some && modes is Some && can_start is Some
        && max_open is Some && can_manage is Some && observer is Some {
        Some(
            (
                token->0,
                AuthIdentityView {
                    sender: sender->0,
                    allowed_modes: if modes->0.len() == 0 {
                        None
                    } else {
                        Some(modes->0.to_set())
                    },
                    can_start_sessions: can_start->0,
                    max_open_sessions: max_open->0,
                    can_manage_mode_registry: can_manage->0,
                    is_observer: observer->0,
                },
            ),
        )
    } else {
        None
    }
}

/// The identities that a list of entries stands for, by token. Of two entries
/// for a token the later counts.
pub open spec fn listed_identities(list: Seq<JsonView>) -> Option<Map<Seq<char>, AuthIdentityView>>
    decreases list.len(),
{
    if list.len() == 0 {
        Some(Map::empty())
    } else {
        match (listed_identities(list.drop_last()), listed_identity(list.last())) {
            (Some(before), Some((token, identity))) => Some(before.insert(token, identity)),
            _ => None,
        }
    }
}

/// The identities that a list stands for, by token.
pub open spec fn identities_of_list(j: JsonView) -> Option<Map<Seq<char>, AuthIdentityView>> {
    match j {
        JsonView::Array(list) => listed_identities(list),
        _ => None,
    }
}

/// The identities that a document stands for, by token: it is a list of entries,
/// or else a record with the one field `tokens`, which holds such a list.
pub open spec fn identities_in(j: JsonView) -> Option<Map<Seq<char>, AuthIdentityView>> {
    match identities_of_list(j) {
        Some(identities) => Some(identities),
        None => match given(j, 0, "tokens"@) {
            Some(Some(tokens)) => if is_record(j, 1) {
                identities_of_list(tokens)
            } else {
                None
            },
            _ => None,
        },
    }
}

fn read_identity(bytes: &[u8]) -> (r: Option<(String, AuthIdentity)>)
    ensures
        r is Some <==> listed_identity(view_of(bytes@)) is Some,
        r is Some ==> (r->0).0@ == (listed_identity(view_of(bytes@))->0).0,
        r is Some ==> (r->0).1.deep_view() == (listed_identity(view_of(bytes@))->0).1,
{
    let record: Fields<'_> = match Fields::read(bytes, 7) {
        Some(record) => record,
        None => return None,
    };
    let token: String = match read_required::<String>(&record, 0, "token") {
        Some(x) => x,
        None => return None,
    };
    let sender: String = match read_required::<String>(&record, 1, "sender") {
        Some(x) => x,
        None => return None,
    };
    let all: Vec<String> = Vec::new();
    assert(all.deep_view() =~= seq![]);
    let modes: Vec<String> = match read_defaulted::<Vec<String>>(&record, 2, "allowed_modes", all) {
        Some(x) => x,
        None => return None,
    };
    let can_start_sessions: bool = match read_defaulted::<bool>(
        &record,
        3,
        "can_start_sessions",
        true,
    ) {
        Some(x) => x,
        None => return None,
    };
    let max_open_sessions: Option<usize> = match read_optional::<usize>(
        &record,
        4,
        "max_open_sessions",
    ) {
        Some(x) => x,
        None => return None,
    };
    let can_manage_mode_registry: bool = match read_defaulted::<bool>(
        &record,
        5,
        "can_manage_mode_registry",
        false,
    ) {
        Some(x) => x,
        None => return None,
    };
    let is_observer: bool = match read_defaulted::<bool>(&record, 6, "is_observer", false) {
        Some(x) => x,
        None => return None,
    };
    assert(modes.deep_view() =~= texts(modes@));
    let allowed_modes: Option<TextSet> = if modes.len() == 0 {
        None
    } else {
        Some(set_of(&modes))
    };
    Some(
        (
            token,
            AuthIdentity {
                sender,
                allowed_modes,
                can_start_sessions,
                max_open_sessions,
                can_manage_mode_registry,
                is_observer,
            },
        ),
    )
}

fn set_of(list: &Vec<String>) -> (r: TextSet)
    ensures
        r@ == texts(list@).to_set(),
{
    let mut r: TextSet = TextSet::new();
    let mut i: usize = 0;
    while i < list.len()
        invariant
            i <= list@.len(),
            forall|t: Seq<char>|
                r@.contains(t) <==> exists|j: int| 0 <= j < i && #[trigger] list@[j]@ == t,
        decreases list@.len() - i,
    {
        let ghost before = r@;
        let _ = r.insert(list[i].clone());
        assert forall|t: Seq<char>|
            r@.contains(t) <==> exists|j: int| 0 <= j < i + 1 && #[trigger] list@[j]@ == t by {
            if before.contains(t) {
                let j = choose|j: int| 0 <= j < i && #[trigger] list@[j]@ == t;
                assert(list@[j]@ == t);
            }
            if t == list@[i as int]@ {
                assert(list@[i as int]@ == t);
            }
        }
        i = i + 1;
    }
    assert forall|t: Seq<char>| r@.contains(t) <==> texts(list@).to_set().contains(t) by {
        if r@.contains(t) {
            let j = choose|j: int| 0 <= j < list@.len() && #[trigger] list@[j]@ == t;
            assert(texts(list@)[j] == t);
        }
        if texts(list@).contains(t) {
            let j = texts(list@).index_of(t);
            assert(list@[j]@ == t);
        }
    }
    assert(r@ =~= texts(list@).to_set());
    r
}

proof fn listed_prefix(list: Seq<JsonView>, n: int)
    requires
        0 <= n <= list.len(),
        listed_identities(list.take(n)) is None,
    ensures
        listed_identities(list) is None,
    decreases list.len() - n,
{
    if n < list.len() {
        assert(list.take(n + 1).drop_last() =~= list.take(n));
        listed_prefix(list, n + 1);
    } else {
        assert(list.take(n) =~= list);
    }
}

fn read_identities(bytes: &[u8]) -> (r: Option<TextMap<AuthIdentity>>)
    ensures
        r is Some <==> identities_of_list(view_of(bytes@)) is Some,
        r is Some ==> r->0@ == identities_of_list(view_of(bytes@))->0,
{
    let list: Vec<&[u8]> = match layer(bytes) {
        Layer::Array(list) => list,
        _ => return None,
    };
    let ghost all = list_views(list@);
    let mut identities: TextMap<AuthIdentity> = TextMap::new();
    let mut i: usize = 0;
    assert(all.take(0) =~= seq![]);
    while i < list.len()
        invariant
            i <= list@.len(),
            all == list_views(list@),
            view_of(bytes@) == JsonView::Array(all),
            listed_identities(all.take(i as int)) is Some,
            identities@ == listed_identities(all.take(i as int))->0,
        decreases list@.len() - i,
    {
        assert(all.take(i + 1).drop_last() =~= all.take(i as int));
        assert(all.take(i + 1).last() == view_of(list@[i as int]@));
        match read_identity(list[i]) {
            Some((token, identity)) => {
                identities.insert(token, identity);
            },
            None => {
                proof {
                    listed_prefix(all, i + 1);
                }
                return None;
            },
        }
        i = i + 1;
    }
    assert(all.take(i as int) =~= all);
    Some(identities)
}

/// Reads the identities that a text stands for.
pub fn identities_of(bytes: &[u8]) -> (r: Option<TextMap<AuthIdentity>>)
    ensures
        r is Some <==> identities_in(view_of(bytes@)) is Some,
        r is Some ==> r->0@ == identities_in(view_of(bytes@))->0,
{
    if let Some(identities) = read_identities(bytes) {
        return Some(identities);
    }
    match Fields::read(bytes, 1) {
        Some(record) => {
            match record.field(0, "tokens") {
                Some(Some(tokens)) => read_identities(tokens),
                _ => None,
            }
        },
        None => None,
    }
}

// ---------------------------------------------------------------------------
// Credentials
// ---------------------------------------------------------------------------

/// The headers of a request that hold credentials, where they are there and are
/// text.
#[derive(Clone, Debug)]
pub struct Credentials {
    /// The header `authorization`.
    pub authorization: Option<String>,
    /// The header `x-macp-token`.
    pub macp_token: Option<String>,
}

/// The token that a request comes with: the bearer token of its `authorization`
/// header, or else its `x-macp-token`.
pub open spec fn token_of(credentials: Credentials) -> Option<Seq<char>> {
    if credentials.authorization is Some && has_prefix(
        credentials.authorization->0@,
        "Bearer "@,
    ) {
        Some(credentials.authorization->0@.skip("Bearer "@.len() as int))
    } else {
        match credentials.macp_token {
            Some(token) => Some(token@),
            None => None,
        }
    }
}

/// The identity of any token where no authentication is set up: it may do
/// everything.
pub open spec fn unchecked_identity(token: Seq<char>) -> AuthIdentityView {
    AuthIdentityView {
        sender: token,
        allowed_modes: None,
        can_start_sessions: true,
        max_open_sessions: None,
        can_manage_mode_registry: true,
        is_observer: false,
    }
}

// ---------------------------------------------------------------------------
// Page sizes
// ---------------------------------------------------------------------------

/// How many sessions a page lists where the client does not say.
pub const DEFAULT_LIST_SESSIONS_PAGE_SIZE: usize = 100;

/// How many sessions a page lists at most.
pub const MAX_LIST_SESSIONS_PAGE_SIZE: usize = 1000;

/// What the environment says about page sizes.
#[derive(Clone, Debug)]
pub struct RawPageSizeEnv {
    pub default_raw: Option<String>,
    pub max_raw: Option<String>,
}

/// The number that a setting spells out, where it is one that fits.
pub open spec fn setting(raw: Option<String>) -> Option<int> {
    match raw {
        Some(text) => match decimal(text@) {
            Some(n) => if n <= usize::MAX {
                Some(n as int)
            } else {
                None
            },
            None => None,
        },
        None => None,
    }
}

/// A setting, or its default where the setting is not usable.
pub open spec fn setting_or(raw: Option<String>, default: usize) -> int {
    match setting(raw) {
        Some(n) => n,
        None => default as int,
    }
}

/// A page size: a setting of zero is not usable either.
pub open spec fn page_size(raw: Option<String>, default: usize) -> int {
    match setting(raw) {
        Some(n) => if n > 0 {
            n
        } else {
            default as int
        },
        None => default as int,
    }
}

/// The default page size and the greatest one. The default is never greater.
pub open spec fn page_sizes(raw: RawPageSizeEnv) -> (int, int) {
    let max = page_size(raw.max_raw, MAX_LIST_SESSIONS_PAGE_SIZE);
    let default = page_size(raw.default_raw, DEFAULT_LIST_SESSIONS_PAGE_SIZE);
    (
        if default > max {
            max
        } else {
            default
        },
        max,
    )
}

/// Where the default page size is beyond the greatest: the default, and whether
/// the environment sets it.
pub open spec fn default_beyond_max(raw: RawPageSizeEnv) -> Option<(int, bool)> {
    let max = page_size(raw.max_raw, MAX_LIST_SESSIONS_PAGE_SIZE);
    let default = page_size(raw.default_raw, DEFAULT_LIST_SESSIONS_PAGE_SIZE);
    if default > max {
        Some((default, setting(raw.default_raw) matches Some(n) && n > 0))
    } else {
        None
    }
}

fn read_setting(raw: &Option<String>) -> (r: Option<usize>)
    ensures
        r is Some <==> setting(*raw) is Some,
        r is Some ==> r->0 == setting(*raw)->0,
{
    match raw {
        Some(text) => parse_usize(text.as_str()),
        None => None,
    }
}

fn read_setting_or(raw: &Option<String>, default: usize) -> (r: usize)
    ensures
        r == setting_or(*raw, default),
{
    match read_setting(raw) {
        Some(n) => n,
        None => default,
    }
}

fn read_page_size(raw: &Option<String>, default: usize) -> (r: usize)
    ensures
        r == page_size(*raw, default),
{
    match read_setting(raw) {
        Some(n) => {
            if n > 0 {
                n
            } else {
                default
            }
        },
        None => default,
    }
}

/// Page sizes are never zero, and the default is never beyond the greatest.
pub proof fn page_sizes_are_usable(raw: RawPageSizeEnv)
    ensures
        0 < page_sizes(raw).0 <= page_sizes(raw).1,
{
}

// ---------------------------------------------------------------------------
// The layer
// ---------------------------------------------------------------------------

/// How large a payload may be where nothing is set.
pub const DEFAULT_MAX_PAYLOAD_BYTES: usize = 1_048_576;

/// How many sessions a sender may start in a minute where nothing is set.
pub const DEFAULT_SESSION_STARTS_PER_MINUTE: usize = 60;

/// How many messages a sender may send in a minute where nothing is set.
pub const DEFAULT_MESSAGES_PER_MINUTE: usize = 600;

/// What the environment says about the limits of the layer.
#[derive(Clone, Debug)]
pub struct RawLimits {
    pub max_payload_bytes: Option<String>,
    pub page_sizes: RawPageSizeEnv,
    pub session_starts_per_minute: Option<String>,
    pub messages_per_minute: Option<String>,
}

/// Decides who a caller is and what it may do.
#[derive(Clone, Debug)]
pub struct SecurityLayer {
    /// The identities, by token.
    pub identities: TextMap<AuthIdentity>,
    /// Whether resolvers settle who a caller is. Where there are none to ask, no
    /// one is let in.
    pub has_resolvers: bool,
    pub max_payload_bytes: usize,
    /// How many sessions a page lists where the client does not say.
    pub list_sessions_default_page_size: usize,
    /// How many sessions a page lists at most.
    pub list_sessions_max_page_size: usize,
    pub session_start_rate: RateLimitConfig,
    pub message_rate: RateLimitConfig,
}

/// What has been let through, session starts and messages apart.
#[derive(Debug)]
pub struct RateBucket {
    pub start_events: EventLog,
    pub message_events: EventLog,
}

impl RateBucket {
    /// The bucket of which nothing has been asked yet.
    pub fn new() -> (r: Self)
        ensures
            r.start_events@.events == Map::<Seq<char>, Seq<u64>>::empty(),
            r.start_events@.requests == 0,
            r.message_events@.events == Map::<Seq<char>, Seq<u64>>::empty(),
            r.message_events@.requests == 0,
    {
        RateBucket { start_events: EventLog::new(), message_events: EventLog::new() }
    }
}

/// Whether the identity may use the mode.
pub open spec fn may_use(
    identity: AuthIdentityView,
    mode: Seq<char>,
    is_session_start: bool,
) -> bool {
    &&& is_session_start ==> identity.can_start_sessions
    &&& identity.allowed_modes is Some ==> identity.allowed_modes->0.contains(mode)
}

/// Whether `r` is what the layer makes of the credentials, where no resolver is
/// asked: with identities on record the token must be one of theirs, and without
/// any token will do.
pub open spec fn identifies(
    layer: SecurityLayer,
    credentials: Credentials,
    r: Result<AuthIdentity, MacpError>,
) -> bool {
    match token_of(credentials) {
        None => r == Err::<AuthIdentity, MacpError>(MacpError::Unauthenticated),
        Some(token) => if layer.identities@ == Map::<Seq<char>, AuthIdentityView>::empty() {
            r is Ok && r->Ok_0.deep_view() == unchecked_identity(token)
        } else if layer.identities@.dom().contains(token) {
            r is Ok && r->Ok_0.deep_view() == layer.identities@[token]
        } else {
            r == Err::<AuthIdentity, MacpError>(MacpError::Unauthenticated)
        },
    }
}

impl SecurityLayer {
    /// A layer that takes any token for the name of its bearer and limits no
    /// rate.
    pub fn dev_mode() -> (r: Self)
        ensures
            r.identities@ == Map::<Seq<char>, AuthIdentityView>::empty(),
            !r.has_resolvers,
            r.max_payload_bytes == DEFAULT_MAX_PAYLOAD_BYTES,
            r.list_sessions_default_page_size == DEFAULT_LIST_SESSIONS_PAGE_SIZE,
            r.list_sessions_max_page_size == MAX_LIST_SESSIONS_PAGE_SIZE,
            r.session_start_rate == (RateLimitConfig { limit: usize::MAX, window_ns: MINUTE_NS }),
            r.message_rate == (RateLimitConfig { limit: usize::MAX, window_ns: MINUTE_NS }),
    {
        SecurityLayer {
            identities: TextMap::new(),
            has_resolvers: false,
            max_payload_bytes: DEFAULT_MAX_PAYLOAD_BYTES,
            list_sessions_default_page_size: DEFAULT_LIST_SESSIONS_PAGE_SIZE,
            list_sessions_max_page_size: MAX_LIST_SESSIONS_PAGE_SIZE,
            session_start_rate: RateLimitConfig { limit: usize::MAX, window_ns: MINUTE_NS },
            message_rate: RateLimitConfig { limit: usize::MAX, window_ns: MINUTE_NS },
        }
    }

    /// A layer with the limits that the environment sets. Resolvers settle who a
    /// caller is where the environment asks for authentication.
    pub fn from_settings(
        limits: RawLimits,
        identities: TextMap<AuthIdentity>,
        asked: bool,
    ) -> (r: Self)
        ensures
            r.identities@ == identities@,
            r.has_resolvers == asked,
            r.max_payload_bytes == setting_or(limits.max_payload_bytes, DEFAULT_MAX_PAYLOAD_BYTES),
            r.list_sessions_default_page_size == page_sizes(limits.page_sizes).0,
            r.list_sessions_max_page_size == page_sizes(limits.page_sizes).1,
            r.session_start_rate.limit == setting_or(
                limits.session_starts_per_minute,
                DEFAULT_SESSION_STARTS_PER_MINUTE,
            ),
            r.session_start_rate.window_ns == MINUTE_NS,
            r.message_rate.limit == setting_or(
                limits.messages_per_minute,
                DEFAULT_MESSAGES_PER_MINUTE,
            ),
            r.message_rate.window_ns == MINUTE_NS,
    {
        let (default_size, max_size): (usize, usize) = Self::resolve_list_sessions_page_sizes(
            limits.page_sizes,
        );
        SecurityLayer {
            identities,
            has_resolvers: asked,
            max_payload_bytes: read_setting_or(
                &limits.max_payload_bytes,
                DEFAULT_MAX_PAYLOAD_BYTES,
            ),
            list_sessions_default_page_size: default_size,
            list_sessions_max_page_size: max_size,
            session_start_rate: RateLimitConfig {
                limit: read_setting_or(
                    &limits.session_starts_per_minute,
                    DEFAULT_SESSION_STARTS_PER_MINUTE,
                ),
                window_ns: MINUTE_NS,
            },
            message_rate: RateLimitConfig {
                limit: read_setting_or(&limits.messages_per_minute, DEFAULT_MESSAGES_PER_MINUTE),
                window_ns: MINUTE_NS,
            },
        }
    }

    /// The page sizes that the environment sets. A setting that is no number, or
    /// zero, counts as missing.
    pub fn resolve_list_sessions_page_sizes(raw: RawPageSizeEnv) -> (r: (usize, usize))
        ensures
            r.0 == page_sizes(raw).0,
            r.1 == page_sizes(raw).1,
    {
        let max: usize = read_page_size(&raw.max_raw, MAX_LIST_SESSIONS_PAGE_SIZE);
        let default: usize = read_page_size(&raw.default_raw, DEFAULT_LIST_SESSIONS_PAGE_SIZE);
        if default > max {
            (max, max)
        } else {
            (default, max)
        }
    }

    /// What to warn of: a default page size beyond the greatest, and whether the
    /// environment sets it.
    pub fn clamped_page_size(raw: &RawPageSizeEnv) -> (r: Option<(usize, bool)>)
        ensures
            match default_beyond_max(*raw) {
                Some((default, from_env)) => r is Some && (r->0).0 == default && (r->0).1
                    == from_env,
                None => r is None,
            },
    {
        let max: usize = read_page_size(&raw.max_raw, MAX_LIST_SESSIONS_PAGE_SIZE);
        let default: usize = read_page_size(&raw.default_raw, DEFAULT_LIST_SESSIONS_PAGE_SIZE);
        if default <= max {
            return None;
        }
        let from_env: bool = match read_setting(&raw.default_raw) {
            Some(n) => n > 0,
            None => false,
        };
        Some((default, from_env))
    }

    /// Where the default page size came from.
    pub fn page_size_default_source(default_from_env: bool) -> (r: &'static str)
        ensures
            r@ == if default_from_env {
                "MACP_LIST_SESSIONS_DEFAULT_PAGE_SIZE"@
            } else {
                "built-in"@
            },
    {
        if default_from_env {
            "MACP_LIST_SESSIONS_DEFAULT_PAGE_SIZE"
        } else {
            "built-in"
        }
    }

    /// What to warn of where the default page size is beyond the greatest.
    pub fn clamp_warning_message(default_from_env: bool) -> (r: &'static str)
        ensures
            r@ == if default_from_env {
                "MACP_LIST_SESSIONS_DEFAULT_PAGE_SIZE exceeds MACP_LIST_SESSIONS_MAX_PAGE_SIZE; clamping the default down to the max"@
            } else {
                "the effective ListSessions default page size is the built-in one and exceeds MACP_LIST_SESSIONS_MAX_PAGE_SIZE; clamping the default down to the max"@
            },
    {
        if default_from_env {
            "MACP_LIST_SESSIONS_DEFAULT_PAGE_SIZE exceeds MACP_LIST_SESSIONS_MAX_PAGE_SIZE; clamping the default down to the max"
        } else {
            "the effective ListSessions default page size is the built-in one and exceeds MACP_LIST_SESSIONS_MAX_PAGE_SIZE; clamping the default down to the max"
        }
    }

    /// Reads the identities from a JSON text: a list of tokens, or an object that
    /// holds one under `tokens`.
    pub fn parse_identities(json: &str) -> (r: Result<TextMap<AuthIdentity>, ConfigError>)
        ensures
            match json_parse(vstd::utf8::encode_utf8(json@)) {
                Some(_) => match identities_in(view_of(vstd::utf8::encode_utf8(json@))) {
                    Some(identities) => r is Ok && r->Ok_0@ == identities,
                    None => r == Err::<TextMap<AuthIdentity>, ConfigError>(ConfigError::Shape),
                },
                None => r == Err::<TextMap<AuthIdentity>, ConfigError>(ConfigError::Syntax),
            },
    {
        match parse(json.as_bytes()) {
            Some(_) => {
                match identities_of(json.as_bytes()) {
                    Some(identities) => Ok(identities),
                    None => Err(ConfigError::Shape),
                }
            },
            None => Err(ConfigError::Syntax),
        }
    }

    /// The token that a request comes with.
    pub fn bearer_token(credentials: &Credentials) -> (r: Option<String>)
        ensures
            r.deep_view() == token_of(*credentials),
    {
        if let Some(value) = &credentials.authorization {
            if let Some(token) = strip_prefix(value.as_str(), "Bearer ") {
                return Some(token);
            }
        }
        match &credentials.macp_token {
            Some(token) => Some(token.clone()),
            None => None,
        }
    }

    /// Takes any token for the name of its bearer, which may do everything.
    pub fn dev_authenticate(&self, credentials: &Credentials) -> (r: Result<
        AuthIdentity,
        MacpError,
    >)
        ensures
            match token_of(*credentials) {
                Some(token) => r is Ok && r->Ok_0.deep_view() == unchecked_identity(token),
                None => r == Err::<AuthIdentity, MacpError>(MacpError::Unauthenticated),
            },
    {
        match Self::bearer_token(credentials) {
            Some(token) => Ok(
                AuthIdentity {
                    sender: token,
                    allowed_modes: None,
                    can_start_sessions: true,
                    max_open_sessions: None,
                    can_manage_mode_registry: true,
                    is_observer: false,
                },
            ),
            None => Err(MacpError::Unauthenticated),
        }
    }

    /// Settles who a caller is where there are no resolvers to ask.
    pub fn authenticate_metadata(&self, credentials: &Credentials) -> (r: Result<
        AuthIdentity,
        MacpError,
    >)
        requires
            !self.has_resolvers,
        ensures
            identifies(*self, *credentials, r),
    {
        if !self.identities.is_empty() {
            return match Self::bearer_token(credentials) {
                Some(token) => {
                    match self.identities.get(token.as_str()) {
                        Some(identity) => Ok(identity.copied()),
                        None => Err(MacpError::Unauthenticated),
                    }
                },
                None => Err(MacpError::Unauthenticated),
            };
        }
        self.dev_authenticate(credentials)
    }

    /// Refuses an identity that may not use the mode.
    pub fn authorize_mode(&self, identity: &AuthIdentity, mode: &str, is_session_start: bool) -> (r:
        Result<(), MacpError>)
        ensures
            r == if may_use(identity.deep_view(), mode@, is_session_start) {
                Ok::<(), MacpError>(())
            } else {
                Err(MacpError::Forbidden)
            },
    {
        if is_session_start && !identity.can_start_sessions {
            return Err(MacpError::Forbidden);
        }
        if let Some(allowed_modes) = &identity.allowed_modes {
            if !allowed_modes.contains(mode) {
                return Err(MacpError::Forbidden);
            }
        }
        Ok(())
    }

    /// Refuses an identity that may not manage the registry of modes.
    pub fn authorize_mode_registry(&self, identity: &AuthIdentity) -> (r: Result<(), MacpError>)
        ensures
            r == if identity.can_manage_mode_registry {
                Ok::<(), MacpError>(())
            } else {
                Err(MacpError::Forbidden)
            },
    {
        if identity.can_manage_mode_registry {
            Ok(())
        } else {
            Err(MacpError::Forbidden)
        }
    }

    /// Whether authentication is set up at all.
    pub fn has_configured_auth(&self) -> (r: bool)
        ensures
            r == self.has_resolvers,
    {
        self.has_resolvers
    }

    /// Refuses a sender that has done too much within a minute. Session starts
    /// and messages have limits of their own.
    pub fn enforce_rate_limit(
        &self,
        bucket: &mut RateBucket,
        sender: &str,
        is_session_start: bool,
        now: u64,
    ) -> (r: Result<(), MacpError>)
        ensures
            is_session_start ==> {
                &&& final(bucket).start_events@ == after_request(
                    old(bucket).start_events@,
                    sender@,
                    now,
                    self.session_start_rate,
                )
                &&& final(bucket).message_events@ == old(bucket).message_events@
                &&& r == if let_through(
                    old(bucket).start_events@,
                    sender@,
                    now,
                    self.session_start_rate,
                ) {
                    Ok::<(), MacpError>(())
                } else {
                    Err(MacpError::RateLimited)
                }
            },
            !is_session_start ==> {
                &&& final(bucket).message_events@ == after_request(
                    old(bucket).message_events@,
                    sender@,
                    now,
                    self.message_rate,
                )
                &&& final(bucket).start_events@ == old(bucket).start_events@
                &&& r == if let_through(
                    old(bucket).message_events@,
                    sender@,
                    now,
                    self.message_rate,
                ) {
                    Ok::<(), MacpError>(())
                } else {
                    Err(MacpError::RateLimited)
                }
            },
    {
        if is_session_start {
            bucket.start_events.check(sender, now, &self.session_start_rate)
        } else {
            bucket.message_events.check(sender, now, &self.message_rate)
        }
    }
}

/// A layer that is set up by the environment goes without resolvers, so that any
/// token will do, exactly where the environment sets neither an issuer nor tokens.
pub proof fn any_token_only_where_nothing_is_set(
    raw: RawJwtEnv,
    tokens: TokenSource,
    layer: SecurityLayer,
)
    requires
        layer.has_resolvers == asks_for_auth(raw, tokens),
    ensures
        !layer.has_resolvers <==> raw.issuer is None && tokens is Nowhere,
{
}

/// A request without a token is never identified, whatever the layer holds.
pub proof fn no_identity_without_a_token(
    layer: SecurityLayer,
    credentials: Credentials,
    r: Result<AuthIdentity, MacpError>,
)
    requires
        token_of(credentials) is None,
        identifies(layer, credentials, r),
    ensures
        r == Err::<AuthIdentity, MacpError>(MacpError::Unauthenticated),
{
}

/// A bearer token in the `authorization` header goes before `x-macp-token`.
pub proof fn bearer_goes_first(credentials: Credentials)
    requires
        credentials.authorization is Some,
        has_prefix(credentials.authorization->0@, "Bearer "@),
    ensures
        token_of(credentials) == token_of(Credentials { macp_token: None, ..credentials }),
        token_of(credentials) is Some,
{
}

// ---------------------------------------------------------------------------
// What credentials come to
// ---------------------------------------------------------------------------

/// What follows `Bearer ` in the `authorization` header is the token, as it is and
/// be it empty; any other such header counts for nothing, and `x-macp-token` takes
/// its place.
pub proof fn the_token_follows_its_scheme(credentials: Credentials, token: Seq<char>)
    ensures
        credentials.authorization is Some && credentials.authorization->0@ == "Bearer "@ + token
            ==> token_of(credentials) == Some(token),
        (credentials.authorization matches Some(header) ==> forall|rest: Seq<char>|
            header@ != #[trigger] ("Bearer "@ + rest)) ==> token_of(credentials)
            == match credentials.macp_token {
            Some(other) => Some(other@),
            None => None,
        },
{
    let scheme = "Bearer "@;
    if credentials.authorization is Some {
        let header = credentials.authorization->0@;
        if header == scheme + token {
            assert(header.take(scheme.len() as int) =~= scheme);
            assert(header.skip(scheme.len() as int) =~= token);
        }
        if has_prefix(header, scheme) {
            let rest = header.skip(scheme.len() as int);
            assert(header =~= scheme + rest);
        }
    }
}

/// Where identities are on record, a token is worth what is on record for it, and
/// one that is not on record is worth nothing. Where none are, any token is taken
/// for the name of its bearer, who may do everything.
pub proof fn tokens_are_worth_what_is_on_record(
    layer: SecurityLayer,
    credentials: Credentials,
    token: Seq<char>,
    r: Result<AuthIdentity, MacpError>,
)
    requires
        token_of(credentials) == Some(token),
        identifies(layer, credentials, r),
    ensures
        layer.identities@.dom().contains(token) ==> r is Ok && r->Ok_0.deep_view()
            == layer.identities@[token],
        !layer.identities@.dom().contains(token) && (exists|other: Seq<char>| #[trigger]
            layer.identities@.dom().contains(other)) ==> r == Err::<AuthIdentity, MacpError>(
            MacpError::Unauthenticated,
        ),
        (forall|other: Seq<char>| !#[trigger] layer.identities@.dom().contains(other)) ==> {
            &&& r is Ok
            &&& r->Ok_0.sender@ == token
            &&& r->Ok_0.allowed_modes is None
            &&& r->Ok_0.can_start_sessions
            &&& r->Ok_0.max_open_sessions is None
            &&& r->Ok_0.can_manage_mode_registry
            &&& !r->Ok_0.is_observer
        },
{
    if forall|other: Seq<char>| !#[trigger] layer.identities@.dom().contains(other) {
        assert(layer.identities@ =~= Map::<Seq<char>, AuthIdentityView>::empty());
        assert(r->Ok_0.deep_view().sender == token);
    }
}

/// An identity may use every mode where none are listed, and only those listed where
/// some are; to start a session it must be allowed to do that too. Nothing else
/// about it counts.
pub proof fn modes_are_for_those_who_may_use_them(identity: AuthIdentityView, mode: Seq<char>)
    ensures
        may_use(identity, mode, false) <==> (identity.allowed_modes matches Some(modes)
            ==> modes.contains(mode)),
        may_use(identity, mode, true) <==> may_use(identity, mode, false)
            && identity.can_start_sessions,
{
}

/// A setting that writes a number is taken at its word, down to zero; anything else
/// counts as missing, and the default stands.
pub proof fn settings_are_taken_at_their_word(text: String, default: usize)
    ensures
        decimal(text@) is Some && decimal(text@)->0 <= usize::MAX ==> setting_or(
            Some(text),
            default,
        ) == decimal(text@)->0,
        decimal(text@) is None || decimal(text@)->0 > usize::MAX ==> setting_or(
            Some(text),
            default,
        ) == default,
        setting_or(None, default) == default,
{
}

/// A page size that is set is taken at its word unless it is zero. Where it is not
/// set a page lists a hundred sessions, and at most a thousand; the default is cut
/// down to the greatest, and otherwise the two do not depend on each other.
pub proof fn page_sizes_are_taken_at_their_word(raw: RawPageSizeEnv)
    ensures
        ({
            let greatest = if raw.max_raw is Some && decimal(raw.max_raw->0@) is Some && 0
                < decimal(raw.max_raw->0@)->0 <= usize::MAX {
                decimal(raw.max_raw->0@)->0 as int
            } else {
                1000
            };
            let default = if raw.default_raw is Some && decimal(raw.default_raw->0@) is Some && 0
                < decimal(raw.default_raw->0@)->0 <= usize::MAX {
                decimal(raw.default_raw->0@)->0 as int
            } else {
                100
            };
            &&& page_sizes(raw).1 == greatest
            &&& default <= greatest ==> page_sizes(raw).0 == default
            &&& default > greatest ==> page_sizes(raw).0 == greatest
            &&& default_beyond_max(raw) is Some <==> default > greatest
            &&& default_beyond_max(raw) matches Some((beyond, from_env)) ==> beyond == default && (
            from_env <==> raw.default_raw is Some && decimal(raw.default_raw->0@) is Some && 0
                < decimal(raw.default_raw->0@)->0 <= usize::MAX)
        }),
{
}

/// An entry of a list of tokens stands for what it says: who, and what they may do.
/// An empty list of modes, or none, stands for all modes; sessions may be started
/// unless the entry says otherwise, and everything else is denied unless it does.
pub proof fn entries_say_who_and_what(j: JsonView)
    requires
        listed_identity(j) is Some,
    ensures
        ({
            let (token, id) = listed_identity(j)->0;
            &&& given(j, 0, "token"@) == Some(Some(JsonView::Text(token)))
            &&& given(j, 1, "sender"@) == Some(Some(JsonView::Text(id.sender)))
            &&& given(j, 2, "allowed_modes"@) == Some(None::<JsonView>) ==> id.allowed_modes is None
            &&& given(j, 2, "allowed_modes"@) matches Some(Some(JsonView::Array(list))) ==> {
                &&& id.allowed_modes is None <==> list.len() == 0
                &&& id.allowed_modes matches Some(modes) ==> forall|i: int|
                    0 <= i < list.len() ==> modes.contains((#[trigger] list[i])->Text_0)
            }
            &&& given(j, 3, "can_start_sessions"@) == Some(None::<JsonView>)
                ==> id.can_start_sessions
            &&& given(j, 3, "can_start_sessions"@) matches Some(Some(v)) ==> v == JsonView::Bool(
                id.can_start_sessions,
            )
            &&& given(j, 4, "max_open_sessions"@) == Some(None::<JsonView>)
                ==> id.max_open_sessions is None
            &&& given(j, 4, "max_open_sessions"@) matches Some(Some(v)) ==> v
                == match id.max_open_sessions {
                Some(n) => JsonView::Number(NumberView::Integer(n as int)),
                None => JsonView::Null,
            }
            &&& given(j, 5, "can_manage_mode_registry"@) == Some(None::<JsonView>)
                ==> !id.can_manage_mode_registry
            &&& given(j, 5, "can_manage_mode_registry"@) matches Some(Some(v)) ==> v
                == JsonView::Bool(id.can_manage_mode_registry)
            &&& given(j, 6, "is_observer"@) == Some(None::<JsonView>) ==> !id.is_observer
            &&& given(j, 6, "is_observer"@) matches Some(Some(v)) ==> v == JsonView::Bool(
                id.is_observer,
            )
        }),
{
    let (token, id) = listed_identity(j)->0;
    if let Some(Some(JsonView::Array(list))) = given(j, 2, "allowed_modes"@) {
        let modes = defaulted::<Vec<String>>(j, 2, "allowed_modes"@, seq![])->0;
        assert(modes.len() == list.len());
        assert forall|i: int| 0 <= i < list.len() implies modes.contains(
            (#[trigger] list[i])->Text_0,
        ) by {
            assert(modes[i] == list[i]->Text_0);
        }
    }
}

/// The identities of a list are those of its entries: a token has the identity of
/// the last entry for it, and there are no other tokens.
pub proof fn the_last_entry_for_a_token_counts(list: Seq<JsonView>, i: int)
    requires
        listed_identities(list) is Some,
        0 <= i < list.len(),
    ensures
        listed_identity(list[i]) is Some,
        ({
            let (token, id) = listed_identity(list[i])->0;
            &&& listed_identities(list)->0.dom().contains(token)
            &&& (forall|j: int|
                i < j < list.len() ==> (listed_identity(#[trigger] list[j])->0).0 != token)
                ==> listed_identities(list)->0[token] == id
        }),
    decreases list.len(),
{
    if i < list.len() - 1 {
        let init = list.drop_last();
        the_last_entry_for_a_token_counts(init, i);
        let (token, id) = listed_identity(list[i])->0;
        assert(init[i] == list[i]);
        if forall|j: int|
            i < j < list.len() ==> (listed_identity(#[trigger] list[j])->0).0 != token {
            assert((listed_identity(list[list.len() - 1])->0).0 != token);
            assert forall|j: int| i < j < init.len() implies (listed_identity(
                #[trigger] init[j],
            )->0).0 != token by {
                assert(init[j] == list[j]);
            }
        }
    }
}

/// Every token on record comes from an entry of the list.
pub proof fn tokens_come_from_entries(list: Seq<JsonView>, token: Seq<char>) -> (i: int)
    requires
        listed_identities(list) is Some,
        listed_identities(list)->0.dom().contains(token),
    ensures
        0 <= i < list.len(),
        listed_identity(list[i]) is Some,
        (listed_identity(list[i])->0).0 == token,
        listed_identities(list)->0[token] == (listed_identity(list[i])->0).1,
    decreases list.len(),
{
    let last = listed_identity(list.last())->0;
    if last.0 == token {
        list.len() - 1
    } else {
        let i = tokens_come_from_entries(list.drop_last(), token);
        assert(list.drop_last()[i] == list[i]);
        i
    }
}

/// An entry of a list of tokens can be read exactly where it says for which token and
/// for whom it is, and says all else in the right shape: a list of texts, truth
/// values, and a number or nothing.
pub proof fn entries_need_a_token_and_a_name(j: JsonView)
    ensures
        listed_identity(j) is Some <==> {
            &&& j is Object || (j is Array && j->Array_0.len() <= 7)
            &&& given(j, 0, "token"@) matches Some(Some(JsonView::Text(_)))
            &&& given(j, 1, "sender"@) matches Some(Some(JsonView::Text(_)))
            &&& given(j, 2, "allowed_modes"@) is Some
            &&& given(j, 2, "allowed_modes"@) matches Some(Some(v)) ==> (v matches JsonView::Array(
                list,
            ) && forall|i: int| 0 <= i < list.len() ==> #[trigger] list[i] is Text)
            &&& given(j, 3, "can_start_sessions"@) is Some
            &&& given(j, 3, "can_start_sessions"@) matches Some(Some(v)) ==> v is Bool
            &&& given(j, 4, "max_open_sessions"@) is Some
            &&& given(j, 4, "max_open_sessions"@) matches Some(Some(v)) ==> v is Null || (
            v matches JsonView::Number(NumberView::Integer(n)) && 0 <= n <= usize::MAX)
            &&& j is Array ==> given(j, 4, "max_open_sessions"@) != Some(None::<JsonView>)
            &&& given(j, 5, "can_manage_mode_registry"@) is Some
            &&& given(j, 5, "can_manage_mode_registry"@) matches Some(Some(v)) ==> v is Bool
            &&& given(j, 6, "is_observer"@) is Some
            &&& given(j, 6, "is_observer"@) matches Some(Some(v)) ==> v is Bool
        },
        listed_identity(j) matches Some((_, id)) ==> (id.allowed_modes matches Some(modes) ==> (
        given(j, 2, "allowed_modes"@) matches Some(Some(JsonView::Array(list))) && forall|
            mode: Seq<char>,
        | #[trigger]
            modes.contains(mode) ==> exists|i: int|
                0 <= i < list.len() && #[trigger] list[i] == JsonView::Text(mode))),
{
    if listed_identity(j) is Some && (listed_identity(j)->0).1.allowed_modes is Some {
        let list = given(j, 2, "allowed_modes"@)->0->0->Array_0;
        let texts = defaulted::<Vec<String>>(j, 2, "allowed_modes"@, seq![])->0;
        let modes = (listed_identity(j)->0).1.allowed_modes->0;
        assert forall|mode: Seq<char>| #[trigger] modes.contains(mode) implies exists|i: int|
            0 <= i < list.len() && #[trigger] list[i] == JsonView::Text(mode) by {
            let i = texts.index_of(mode);
            assert(list[i] == JsonView::Text(mode));
        }
    }
}

/// A list of tokens is a list of entries that can all be read, by itself or as the
/// only field, `tokens`, of a record.
pub proof fn lists_of_tokens_come_in_two_forms(j: JsonView)
    ensures
        j matches JsonView::Array(list) && listed_identities(list) is Some ==> identities_in(j)
            == listed_identities(j->Array_0),
        j is Object && (given(j, 0, "tokens"@) matches Some(Some(JsonView::Array(list))))
            ==> identities_in(j) == listed_identities(given(j, 0, "tokens"@)->0->0->Array_0),
        j is Object && !(given(j, 0, "tokens"@) matches Some(Some(JsonView::Array(_))))
            ==> identities_in(j) is None,
        !(j is Object) && !(j is Array) ==> identities_in(j) is None,
        listed_identities(Seq::empty()) == Some(Map::<Seq<char>, AuthIdentityView>::empty()),
{
}

} // verus!
