use axum::http::{HeaderMap, HeaderValue};
use vstd::prelude::*;
use vstd::string::StringExecFns;

use crate::errors::{is_validation, ApiError, AppError};
use crate::timeline::{entity_type_name, EntityType};
use crate::text::{chars_eq, chars_of, contains_chars, contains_text, eq_ignore_ascii_case, i64_text, int_text, lower_seq, owned};

verus! {

#[verifier::external_type_specification]
#[verifier::external_body]
#[verifier::reject_recursive_types(T)]
pub struct ExHeaderMap<T>(HeaderMap<T>);

#[verifier::external_type_specification]
#[verifier::external_body]
pub struct ExHeaderValue(HeaderValue);

/// What a header map holds, by header name: the text of the first value of
/// each header present, or `None` where that value is not visible ASCII and
/// so has no text.
pub uninterp spec fn header_texts(headers: HeaderMap) -> Map<Seq<char>, Option<Seq<char>>>;

/// How many values a header map holds (`HeaderMap::len`): one per header
/// name plus the extra values of names that have several. It is never less
/// than the number of entries the map's table holds.
pub uninterp spec fn header_entry_count(headers: HeaderMap) -> nat;

/// Below this many values, `HeaderMap::insert` never has to grow the map's
/// table past its largest size, so it does not panic. (`insert` reserves room
/// for one more entry even when it replaces a header; a map whose probing has
/// turned long doubles its table once it is a fifth full, and the largest
/// table has 32768 slots.)
pub const INSERT_SAFE_ENTRIES: u64 = 6554;

/// The longest header name that `HeaderName::from_static` accepts.
pub const MAX_HEADER_NAME_LEN: u64 = 65535;

/// A header name as `HeaderName::from_static` accepts it: lower-case ASCII
/// letters, digits and dashes only, at most 65535 of them.
pub open spec fn simple_header_name(name: Seq<char>) -> bool {
    &&& name.len() > 0
    &&& name.len() <= MAX_HEADER_NAME_LEN
    &&& forall|i: int|
        0 <= i < name.len() ==> ('a' <= #[trigger] name[i] && name[i] <= 'z') || ('0' <= name[i]
            && name[i] <= '9') || name[i] == '-'
}

/// A header value as `HeaderValue::from_static` accepts it: visible ASCII or
/// tabs.
pub open spec fn visible_ascii(value: Seq<char>) -> bool {
    forall|i: int|
        0 <= i < value.len() ==> (' ' <= #[trigger] value[i] && value[i] <= '~') || value[i]
            == '\t'
}

/// The text of a header (`HeaderMap::get`, then `HeaderValue::to_str`).
/// `get` returns the first value stored under the name; `to_str` fails on a
/// value that is not visible ASCII, which gives `None` here too.
#[verifier::external_body]
fn header_text(headers: &HeaderMap, name: &str) -> (res: Option<String>)
    requires
        simple_header_name(name@),
    ensures
        match res {
            Some(v) => header_texts(*headers).contains_key(name@) && header_texts(*headers)[name@]
                == Some(v@),
            None => !header_texts(*headers).contains_key(name@) || header_texts(*headers)[name@]
                is None,
        },
{
    match headers.get(name) {
        Some(value) => match value.to_str() {
            Ok(text) => Some(text.to_string()),
            Err(_) => None,
        },
        None => None,
    }
}

/// Sets a header to one value (`HeaderMap::insert` with
/// `HeaderValue::from_static`), replacing every value it had. Both
/// `from_static` calls panic on text they do not accept, and `insert` panics
/// when it cannot grow the map; `requires` leaves those inputs out.
#[verifier::external_body]
fn set_static_header(headers: &mut HeaderMap, name: &'static str, value: &'static str)
    requires
        simple_header_name(name@),
        visible_ascii(value@),
        header_entry_count(*old(headers)) < INSERT_SAFE_ENTRIES,
    ensures
        header_texts(*final(headers)) == header_texts(*old(headers)).insert(name@, Some(value@)),
        header_entry_count(*final(headers)) <= header_entry_count(*old(headers)) + 1,
{
    headers.insert(name, HeaderValue::from_static(value));
}

/// Whether a request was made by the Datastar front end: its
/// `datastar-request` header says `true`, in any letter case.
pub open spec fn is_datastar(headers: HeaderMap) -> bool {
    let texts = header_texts(headers);
    texts.contains_key("datastar-request"@) && (texts["datastar-request"@] matches Some(v)
        && lower_seq(v) == "true"@)
}

pub fn is_datastar_request(headers: &HeaderMap) -> (res: bool)
    ensures
        res == is_datastar(*headers),
{
    proof {
        reveal_strlit("datastar-request");
        reveal_strlit("true");
        assert(lower_seq("true"@) =~= "true"@);
    }
    match header_text(headers, "datastar-request") {
        Some(value) => {
            let v = chars_of(value.as_str());
            let t = chars_of("true");
            eq_ignore_ascii_case(v.as_slice(), t.as_slice())
        },
        None => false,
    }
}

/// How many values a header map holds (`HeaderMap::len`).
#[verifier::external_body]
fn header_count(headers: &HeaderMap) -> (res: usize)
    ensures
        res == header_entry_count(*headers),
{
    headers.len()
}

/// How a Datastar fragment is merged into the page.
#[derive(Debug, Clone, Copy, PartialEq, Eq, Structural)]
pub enum DatastarMode {
    /// The fragment replaces the element matched by the selector.
    Replace,
    /// The fragment replaces the contents of that element.
    Inner,
    /// The fragment is appended to that element.
    Append,
}

pub open spec fn mode_name(mode: DatastarMode) -> Seq<char> {
    match mode {
        DatastarMode::Replace => "replace"@,
        DatastarMode::Inner => "inner"@,
        DatastarMode::Append => "append"@,
    }
}

/// The headers a Datastar fragment response carries.
pub open spec fn with_fragment_headers(
    texts: Map<Seq<char>, Option<Seq<char>>>,
    selector: Seq<char>,
    mode: DatastarMode,
) -> Map<Seq<char>, Option<Seq<char>>> {
    texts.insert("datastar-selector"@, Some(selector)).insert(
        "datastar-mode"@,
        Some(mode_name(mode)),
    )
}

/// Marks a response as a Datastar fragment for the element matched by
/// `selector`, merged in the given way.
pub fn set_datastar_headers(headers: &mut HeaderMap, selector: &'static str, mode: DatastarMode)
    requires
        visible_ascii(selector@),
        header_entry_count(*old(headers)) + 1 < INSERT_SAFE_ENTRIES,
    ensures
        header_texts(*final(headers)) == with_fragment_headers(
            header_texts(*old(headers)),
            selector@,
            mode,
        ),
{
    proof {
        reveal_strlit("datastar-selector");
        reveal_strlit("datastar-mode");
        reveal_strlit("replace");
        reveal_strlit("inner");
        reveal_strlit("append");
    }
    set_static_header(headers, "datastar-selector", selector);
    let name = match mode {
        DatastarMode::Replace => "replace",
        DatastarMode::Inner => "inner",
        DatastarMode::Append => "append",
    };
    set_static_header(headers, "datastar-mode", name);
}

/// Marks a response as a Datastar fragment that replaces the element matched
/// by `selector`.
pub fn set_datastar_patch_headers(headers: &mut HeaderMap, selector: &'static str)
    requires
        visible_ascii(selector@),
        header_entry_count(*old(headers)) + 1 < INSERT_SAFE_ENTRIES,
    ensures
        header_texts(*final(headers)) == header_texts(*old(headers)).insert(
            "datastar-selector"@,
            Some(selector@),
        ).insert("datastar-mode"@, Some("replace"@)),
{
    set_datastar_headers(headers, selector, DatastarMode::Replace);
}

fn is_visible_ascii(s: &str) -> (res: bool)
    ensures
        res == visible_ascii(s@),
{
    let cs = chars_of(s);
    let mut i: usize = 0;
    while i < cs.len()
        invariant
            i <= cs.len(),
            cs@ == s@,
            forall|j: int| 0 <= j < i ==> (' ' <= #[trigger] cs@[j] && cs@[j] <= '~') || cs@[j]
                == '\t',
        decreases cs.len() - i,
    {
        let c = cs[i];
        if !((' ' <= c && c <= '~') || c == '\t') {
            return false;
        }
        i = i + 1;
    }
    true
}

/// Marks a response as a Datastar fragment when that can be done: the
/// selector must be visible ASCII and the map must have room for the two
/// headers. Returns whether it did; otherwise the headers are unchanged.
pub fn try_set_datastar_headers(headers: &mut HeaderMap, selector: &'static str, mode: DatastarMode) -> (res: bool)
    ensures
        res == (visible_ascii(selector@) && header_entry_count(*old(headers)) + 1
            < INSERT_SAFE_ENTRIES),
        res ==> header_texts(*final(headers)) == with_fragment_headers(
            header_texts(*old(headers)),
            selector@,
            mode,
        ),
        !res ==> *final(headers) == *old(headers),
{
    if !is_visible_ascii(selector) {
        return false;
    }
    let count = header_count(headers);
    if count >= 6553 {
        return false;
    }
    set_datastar_headers(headers, selector, mode);
    true
}

/// Whether a request was made from a page whose address contains `marker`:
/// its `referer` header has text, and the text contains `marker`.
pub open spec fn referred_from_page(headers: HeaderMap, marker: Seq<char>) -> bool {
    let texts = header_texts(headers);
    texts.contains_key("referer"@) && (texts["referer"@] matches Some(v) && contains_text(
        v,
        marker,
    ))
}

pub fn referred_from(headers: &HeaderMap, marker: &str) -> (res: bool)
    ensures
        res == referred_from_page(*headers, marker@),
{
    proof {
        reveal_strlit("referer");
    }
    match header_text(headers, "referer") {
        Some(value) => contains_chars(chars_of(value.as_str()).as_slice(), chars_of(marker).as_slice()),
        None => false,
    }
}

/// The kinds of entity that can carry an image.
pub open spec fn is_image_entity_type(t: Seq<char>) -> bool {
    t == "roaster"@ || t == "roast"@ || t == "gear"@ || t == "cafe"@ || t == "brew"@ || t
        == "cup"@
}

pub open spec fn invalid_entity_type_message(t: Seq<char>) -> Seq<char> {
    "invalid entity type: "@ + t
}

fn is_one_of_image_types(t: &[char]) -> (res: bool)
    ensures
        res == is_image_entity_type(t@),
{
    chars_eq(t, chars_of("roaster").as_slice()) || chars_eq(t, chars_of("roast").as_slice())
        || chars_eq(t, chars_of("gear").as_slice()) || chars_eq(t, chars_of("cafe").as_slice())
        || chars_eq(t, chars_of("brew").as_slice()) || chars_eq(t, chars_of("cup").as_slice())
}

/// Accepts the entity types that images can be attached to.
pub fn validate_entity_type(entity_type: &str) -> (res: Result<(), ApiError>)
    ensures
        is_image_entity_type(entity_type@) ==> res is Ok,
        !is_image_entity_type(entity_type@) ==> (res matches Err(e) && is_validation(
            e.0,
            invalid_entity_type_message(entity_type@),
        )),
{
    if is_one_of_image_types(chars_of(entity_type).as_slice()) {
        Ok(())
    } else {
        let mut msg = owned("invalid entity type: ");
        msg.append(entity_type);
        Err(ApiError(AppError::Validation(msg)))
    }
}

/// The kind of entity whose existence an image upload checks, by its
/// type text; bags carry no images.
pub fn image_entity_kind(entity_type: &str) -> (res: Result<EntityType, ApiError>)
    ensures
        is_image_entity_type(entity_type@) ==> (res matches Ok(k) && entity_type_name(k)
            == entity_type@ && !(k is Bag)),
        !is_image_entity_type(entity_type@) ==> (res matches Err(e) && is_validation(
            e.0,
            invalid_entity_type_message(entity_type@),
        )),
{
    proof {
        reveal_strlit("roaster");
        reveal_strlit("roast");
        reveal_strlit("gear");
        reveal_strlit("cafe");
        reveal_strlit("brew");
        reveal_strlit("cup");
    }
    let t = chars_of(entity_type);
    if chars_eq(t.as_slice(), chars_of("roaster").as_slice()) {
        Ok(EntityType::Roaster)
    } else if chars_eq(t.as_slice(), chars_of("roast").as_slice()) {
        Ok(EntityType::Roast)
    } else if chars_eq(t.as_slice(), chars_of("gear").as_slice()) {
        Ok(EntityType::Gear)
    } else if chars_eq(t.as_slice(), chars_of("cafe").as_slice()) {
        Ok(EntityType::Cafe)
    } else if chars_eq(t.as_slice(), chars_of("brew").as_slice()) {
        Ok(EntityType::Brew)
    } else if chars_eq(t.as_slice(), chars_of("cup").as_slice()) {
        Ok(EntityType::Cup)
    } else {
        let mut msg = owned("invalid entity type: ");
        msg.append(entity_type);
        Err(ApiError(AppError::Validation(msg)))
    }
}

/// The address an entity's image is served at.
pub open spec fn image_path(entity_type: Seq<char>, entity_id: i64) -> Seq<char> {
    "/api/v1/"@ + entity_type + "/"@ + int_text(entity_id as int) + "/image"@
}

pub fn image_url(entity_type: &str, entity_id: i64) -> (res: String)
    ensures
        res@ == image_path(entity_type@, entity_id),
{
    let mut url = owned("/api/v1/");
    url.append(entity_type);
    url.append("/");
    let id = i64_text(entity_id);
    url.append(id.as_str());
    url.append("/image");
    url
}

/// The image address to show for an entity, given whether it has an image.
pub fn resolve_image_url(has_image: bool, entity_type: &str, entity_id: i64) -> (res: Option<
    String,
>)
    ensures
        has_image ==> (res matches Some(u) && u@ == image_path(entity_type@, entity_id)),
        !has_image ==> res is None,
{
    if has_image {
        Some(image_url(entity_type, entity_id))
    } else {
        None
    }
}

/// The scheme and host that the `url` crate reads from a text, if it reads
/// the text as a URL at all.
pub uninterp spec fn url_parts(s: Seq<char>) -> Option<(Seq<char>, Option<Seq<char>>)>;

/// Parses a URL with `url::Url::parse` and reads its scheme
/// (`Url::scheme`) and host (`Url::host_str`). What the parser accepts and
/// how it normalises is named, not described.
#[verifier::external_body]
fn parse_url_parts(s: &str) -> (res: Option<(String, Option<String>)>)
    ensures
        match res {
            Some((scheme, host)) => url_parts(s@) == Some(
                (
                    scheme@,
                    match host {
                        Some(h) => Some(h@),
                        None => None,
                    },
                ),
            ),
            None => url_parts(s@) is None,
        },
{
    match url::Url::parse(s) {
        Ok(parsed) => Some((parsed.scheme().to_string(), parsed.host_str().map(str::to_string))),
        Err(_) => None,
    }
}

/// The hosts a CLI callback may point at: this machine only.
pub open spec fn is_loopback_host(h: Seq<char>) -> bool {
    h == "127.0.0.1"@ || h == "localhost"@ || h == "::1"@ || h == "[::1]"@
}

/// Whether a CLI callback address is accepted: a plain `http` URL on this
/// machine. Anything else could carry the bearer token to another host.
pub open spec fn callback_accepted(s: Seq<char>) -> bool {
    url_parts(s) matches Some((scheme, host)) && scheme == "http"@ && (host matches Some(h)
        && is_loopback_host(h))
}

pub fn validate_cli_callback_url(url_str: &str) -> (res: Result<(), ()>)
    ensures
        res is Ok <==> callback_accepted(url_str@),
{
    let (scheme, host) = match parse_url_parts(url_str) {
        Some(parts) => parts,
        None => return Err(()),
    };
    if !chars_eq(chars_of(scheme.as_str()).as_slice(), chars_of("http").as_slice()) {
        return Err(());
    }
    match host {
        Some(h) => {
            let hc = chars_of(h.as_str());
            if chars_eq(hc.as_slice(), chars_of("127.0.0.1").as_slice()) || chars_eq(
                hc.as_slice(),
                chars_of("localhost").as_slice(),
            ) || chars_eq(hc.as_slice(), chars_of("::1").as_slice()) || chars_eq(
                hc.as_slice(),
                chars_of("[::1]").as_slice(),
            ) {
                Ok(())
            } else {
                Err(())
            }
        },
        None => Err(()),
    }
}

/// The address a CLI login hands its new token back to.
pub open spec fn cli_redirect(callback_url: Seq<char>, token: Seq<char>, state: Seq<char>) -> Seq<char> {
    callback_url + "?token="@ + token + "&state="@ + state
}

pub fn cli_redirect_url(callback_url: &str, token: &str, state: &str) -> (res: String)
    ensures
        res@ == cli_redirect(callback_url@, token@, state@),
{
    let mut url = owned(callback_url);
    url.append("?token=");
    url.append(token);
    url.append("&state=");
    url.append(state);
    url
}

} // verus!
