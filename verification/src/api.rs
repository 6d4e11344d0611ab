//! Request validation and the decision logic of the three service
//! operations: register, login, and read user info. Each handler turns a
//! payload and the storage outcome into either a typed response or an
//! HTTP-shaped error (status code plus error body).

use vstd::prelude::*;

use crate::db::{
    clone_metadata_list, clone_opt_string, CreateUserRequest, CreateUserRequestView, Database,
    DatabaseError, User, UserMetadata, UserMetadataView, UserProfile, UserProfileView, UserView,
};
use crate::user_info_formatter::{
    format_user_greeting, lookup_property, profile_email, profile_first_name, profile_last_name,
    selected_value, spec_user_greeting,
};

verus! {

// ---------------------------------------------------------------------------
// Payloads and responses
// ---------------------------------------------------------------------------

/// What a caller submits to register a user.
#[derive(Debug)]
pub struct CreateUserPayload {
    pub username: String,
    pub password: String,
    pub first_name: Option<String>,
    pub last_name: Option<String>,
    pub email: Option<String>,
    pub title: Option<String>,
    pub hobby: Option<String>,
}

#[verifier::ext_equal]
pub struct CreateUserPayloadView {
    pub username: Seq<char>,
    pub password: Seq<char>,
    pub first_name: Option<Seq<char>>,
    pub last_name: Option<Seq<char>>,
    pub email: Option<Seq<char>>,
    pub title: Option<Seq<char>>,
    pub hobby: Option<Seq<char>>,
}

impl View for CreateUserPayload {
    type V = CreateUserPayloadView;

    open spec fn view(&self) -> CreateUserPayloadView {
        CreateUserPayloadView {
            username: self.username@,
            password: self.password@,
            first_name: self.first_name.deep_view(),
            last_name: self.last_name.deep_view(),
            email: self.email.deep_view(),
            title: self.title.deep_view(),
            hobby: self.hobby.deep_view(),
        }
    }
}

/// The successful answer to a registration: the assigned id.
#[derive(Debug)]
pub struct CreateUserResponse {
    pub user_id: i32,
}

/// What a caller submits to log in.
#[derive(Debug)]
pub struct LoginPayload {
    pub username: String,
    pub password: String,
}

#[verifier::ext_equal]
pub struct LoginPayloadView {
    pub username: Seq<char>,
    pub password: Seq<char>,
}

impl View for LoginPayload {
    type V = LoginPayloadView;

    open spec fn view(&self) -> LoginPayloadView {
        LoginPayloadView { username: self.username@, password: self.password@ }
    }
}

/// The successful answer to a login: the id of the authenticated user.
#[derive(Debug)]
pub struct LoginResponse {
    pub user_id: i32,
}

/// The error body every failing operation answers with.
#[derive(Debug)]
pub struct ErrorResponse {
    pub error: String,
    pub message: String,
}

/// An HTTP-shaped failure: a status code and the error body.
#[derive(Debug)]
pub struct ApiError {
    pub status: u16,
    pub body: ErrorResponse,
}

/// The aggregated answer to a user-info read: profile fields, the selected
/// title and hobby, the raw metadata, and the rendered greeting.
#[derive(Debug)]
pub struct UserInfoResponse {
    pub id: i32,
    pub username: String,
    pub first_name: Option<String>,
    pub last_name: Option<String>,
    pub email: Option<String>,
    pub title: Option<String>,
    pub hobby: Option<String>,
    pub metadata: Vec<UserMetadata>,
    pub greeting: String,
}

#[verifier::ext_equal]
pub struct UserInfoResponseView {
    pub id: int,
    pub username: Seq<char>,
    pub first_name: Option<Seq<char>>,
    pub last_name: Option<Seq<char>>,
    pub email: Option<Seq<char>>,
    pub title: Option<Seq<char>>,
    pub hobby: Option<Seq<char>>,
    pub metadata: Seq<UserMetadataView>,
    pub greeting: Seq<char>,
}

impl View for UserInfoResponse {
    type V = UserInfoResponseView;

    open spec fn view(&self) -> UserInfoResponseView {
        UserInfoResponseView {
            id: self.id as int,
            username: self.username@,
            first_name: self.first_name.deep_view(),
            last_name: self.last_name.deep_view(),
            email: self.email.deep_view(),
            title: self.title.deep_view(),
            hobby: self.hobby.deep_view(),
            metadata: self.metadata.deep_view(),
            greeting: self.greeting@,
        }
    }
}

/// The user-info answer an aggregated user yields.
pub open spec fn spec_user_info(u: UserView) -> UserInfoResponseView {
    UserInfoResponseView {
        id: u.id,
        username: u.username,
        first_name: profile_first_name(u),
        last_name: profile_last_name(u),
        email: profile_email(u),
        title: selected_value(u.metadata, "title"@),
        hobby: selected_value(u.metadata, "hobby"@),
        metadata: u.metadata,
        greeting: spec_user_greeting(u),
    }
}

impl UserInfoResponse {
    /// Aggregate a stored user into the response shape: profile fields
    /// flattened, title and hobby selected from the metadata (last
    /// occurrence wins), and the greeting rendered.
    pub fn from_user(user: &User) -> (r: UserInfoResponse)
        ensures
            r@ == spec_user_info(user@),
    {
        let (first_name, last_name, email) = match &user.profile {
            Some(p) => (
                clone_opt_string(&p.first_name),
                clone_opt_string(&p.last_name),
                clone_opt_string(&p.email),
            ),
            None => (None, None, None),
        };
        let title = match lookup_property(&user.metadata, "title") {
            Some(v) => v,
            None => None,
        };
        let hobby = match lookup_property(&user.metadata, "hobby") {
            Some(v) => v,
            None => None,
        };
        let greeting = format_user_greeting(user);
        let r = UserInfoResponse {
            id: user.id,
            username: user.username.clone(),
            first_name,
            last_name,
            email,
            title,
            hobby,
            metadata: clone_metadata_list(&user.metadata),
            greeting,
        };
        proof {
            assert(r@ =~= spec_user_info(user@));
        }
        r
    }
}

// ---------------------------------------------------------------------------
// Validation of a registration payload
// ---------------------------------------------------------------------------

/// An optional field stays within the storage column width.
pub open spec fn opt_len_ok(o: Option<Seq<char>>) -> bool {
    match o {
        Some(s) => s.len() <= 255,
        None => true,
    }
}

impl CreateUserPayloadView {
    /// The username is present and at most 16 characters.
    pub open spec fn username_ok(self) -> bool {
        1 <= self.username.len() <= 16
    }

    /// The password is present and at most 255 characters.
    pub open spec fn password_ok(self) -> bool {
        1 <= self.password.len() <= 255
    }

    /// Every field of the payload satisfies its length constraint.
    pub open spec fn valid(self) -> bool {
        &&& self.username_ok()
        &&& self.password_ok()
        &&& opt_len_ok(self.first_name)
        &&& opt_len_ok(self.last_name)
        &&& opt_len_ok(self.email)
        &&& opt_len_ok(self.title)
        &&& opt_len_ok(self.hobby)
    }

    /// The message reported for the first failing field, checked in a fixed
    /// order.
    pub open spec fn first_error_message(self) -> Seq<char>
        recommends
            !self.valid(),
    {
        if !self.username_ok() {
            "Username is required and must be max 16 characters"@
        } else if !self.password_ok() {
            "Password is required and must be max 255 characters"@
        } else if !opt_len_ok(self.first_name) {
            "first_name must be max 255 characters"@
        } else if !opt_len_ok(self.last_name) {
            "last_name must be max 255 characters"@
        } else if !opt_len_ok(self.email) {
            "email must be max 255 characters"@
        } else if !opt_len_ok(self.title) {
            "title must be max 255 characters"@
        } else {
            "hobby must be max 255 characters"@
        }
    }
}

/// A validation failure body with the fixed error code.
fn validation_error(message: &str) -> (e: ErrorResponse)
    ensures
        e.error@ == "VALIDATION_ERROR"@,
        e.message@ == message@,
{
    ErrorResponse {
        error: String::from_str("VALIDATION_ERROR"),
        message: String::from_str(message),
    }
}

/// Whether an optional field stays within the storage column width.
fn check_opt_len(o: &Option<String>) -> (r: bool)
    ensures
        r == opt_len_ok(o.deep_view()),
{
    match o {
        Some(s) => s.as_str().unicode_len() <= 255,
        None => true,
    }
}

/// Check every length constraint of a registration payload, reporting the
/// first violation in a fixed field order.
pub fn validate_create_user(payload: &CreateUserPayload) -> (r: Result<(), ErrorResponse>)
    ensures
        match r {
            Ok(_) => payload@.valid(),
            Err(e) => {
                &&& !payload@.valid()
                &&& e.error@ == "VALIDATION_ERROR"@
                &&& e.message@ == payload@.first_error_message()
            },
        },
{
    let ulen = payload.username.as_str().unicode_len();
    if ulen == 0 || ulen > 16 {
        return Err(validation_error("Username is required and must be max 16 characters"));
    }
    let plen = payload.password.as_str().unicode_len();
    if plen == 0 || plen > 255 {
        return Err(validation_error("Password is required and must be max 255 characters"));
    }
    if !check_opt_len(&payload.first_name) {
        return Err(validation_error("first_name must be max 255 characters"));
    }
    if !check_opt_len(&payload.last_name) {
        return Err(validation_error("last_name must be max 255 characters"));
    }
    if !check_opt_len(&payload.email) {
        return Err(validation_error("email must be max 255 characters"));
    }
    if !check_opt_len(&payload.title) {
        return Err(validation_error("title must be max 255 characters"));
    }
    if !check_opt_len(&payload.hobby) {
        return Err(validation_error("hobby must be max 255 characters"));
    }
    Ok(())
}

// ---------------------------------------------------------------------------
// From payload to storage request
// ---------------------------------------------------------------------------

/// The profile a payload carries: present when any of the three fields is.
pub open spec fn spec_profile_of_payload(p: CreateUserPayloadView) -> Option<UserProfileView> {
    if p.first_name is Some || p.last_name is Some || p.email is Some {
        Some(
            UserProfileView {
                first_name: p.first_name,
                last_name: p.last_name,
                email: p.email,
            },
        )
    } else {
        None
    }
}

/// The metadata entries a payload carries: a "title" entry, then a "hobby"
/// entry, each present when its field is.
pub open spec fn spec_metadata_of_payload(p: CreateUserPayloadView) -> Seq<UserMetadataView> {
    (match p.title {
        Some(t) => seq![
            UserMetadataView { parent_property: None, property: "title"@, value: Some(t) },
        ],
        None => Seq::<UserMetadataView>::empty(),
    }) + (match p.hobby {
        Some(h) => seq![
            UserMetadataView { parent_property: None, property: "hobby"@, value: Some(h) },
        ],
        None => Seq::<UserMetadataView>::empty(),
    })
}

/// The storage request a payload maps to.
pub open spec fn spec_request_of_payload(p: CreateUserPayloadView) -> CreateUserRequestView {
    CreateUserRequestView {
        username: p.username,
        password: p.password,
        profile: spec_profile_of_payload(p),
        metadata: spec_metadata_of_payload(p),
    }
}

/// Turn a validated payload into the storage request: profile present when
/// any profile field is, title and hobby as metadata entries.
pub fn build_create_request(payload: &CreateUserPayload) -> (r: CreateUserRequest)
    ensures
        r@ == spec_request_of_payload(payload@),
{
    let profile = if payload.first_name.is_some() || payload.last_name.is_some()
        || payload.email.is_some() {
        Some(
            UserProfile {
                first_name: clone_opt_string(&payload.first_name),
                last_name: clone_opt_string(&payload.last_name),
                email: clone_opt_string(&payload.email),
            },
        )
    } else {
        None
    };
    let mut metadata: Vec<UserMetadata> = Vec::new();
    match &payload.title {
        Some(t) => {
            metadata.push(
                UserMetadata {
                    parent_property: None,
                    property: String::from_str("title"),
                    value: Some(t.clone()),
                },
            );
        },
        None => {},
    }
    match &payload.hobby {
        Some(h) => {
            metadata.push(
                UserMetadata {
                    parent_property: None,
                    property: String::from_str("hobby"),
                    value: Some(h.clone()),
                },
            );
        },
        None => {},
    }
    let r = CreateUserRequest {
        username: payload.username.clone(),
        password: payload.password.clone(),
        profile,
        metadata,
    };
    proof {
        assert(r@.metadata =~= spec_metadata_of_payload(payload@));
        assert(r@ =~= spec_request_of_payload(payload@));
    }
    r
}

// ---------------------------------------------------------------------------
// Decimal user ids: parsing and rendering
// ---------------------------------------------------------------------------

/// The character is a decimal digit.
pub open spec fn is_digit_char(c: char) -> bool {
    48 <= c as int <= 57
}

/// The numeric value of a decimal digit character.
pub open spec fn digit_value(c: char) -> int {
    c as int - 48
}

/// Every character of the sequence is a decimal digit.
pub open spec fn all_digits(s: Seq<char>) -> bool {
    forall|i: int| 0 <= i < s.len() ==> is_digit_char(#[trigger] s[i])
}

/// The value of a sequence of decimal digits, most significant first.
pub open spec fn digits_value(s: Seq<char>) -> int
    decreases s.len(),
{
    if s.len() == 0 {
        0
    } else {
        digits_value(s.drop_last()) * 10 + digit_value(s.last())
    }
}

/// What parsing a user id from route text yields: the value of the digits,
/// after an optional leading plus sign, provided they denote a positive
/// number no larger than the id type holds. Anything else is refused.
pub open spec fn spec_parse_user_id(s: Seq<char>) -> Option<int> {
    let body = if s.len() > 0 && s[0] == '+' {
        s.skip(1)
    } else {
        s
    };
    if body.len() > 0 && all_digits(body) && 1 <= digits_value(body) <= i32::MAX {
        Some(digits_value(body))
    } else {
        None
    }
}

/// The value of a digit sequence is never negative.
proof fn lemma_digits_value_nonneg(s: Seq<char>)
    requires
        all_digits(s),
    ensures
        digits_value(s) >= 0,
    decreases s.len(),
{
    if s.len() > 0 {
        assert forall|i: int|
            0 <= i < s.drop_last().len() implies is_digit_char(#[trigger] s.drop_last()[i]) by {
            assert(s.drop_last()[i] == s[i]);
        }
        lemma_digits_value_nonneg(s.drop_last());
    }
}

/// A prefix of a digit sequence never exceeds the whole sequence in value.
proof fn lemma_digits_value_prefix_le(s: Seq<char>, i: int)
    requires
        all_digits(s),
        0 <= i <= s.len(),
    ensures
        digits_value(s.subrange(0, i)) <= digits_value(s),
    decreases s.len() - i,
{
    if i == s.len() {
        assert(s.subrange(0, i) =~= s);
    } else {
        lemma_digits_value_prefix_le(s, i + 1);
        let a = s.subrange(0, i);
        let b = s.subrange(0, i + 1);
        assert(b.drop_last() =~= a);
        assert(b.last() == s[i]);
        assert forall|j: int| 0 <= j < a.len() implies is_digit_char(#[trigger] a[j]) by {
            assert(a[j] == s[j]);
        }
        lemma_digits_value_nonneg(a);
    }
}

/// Parse a user id from route text: an optional leading plus sign, then
/// decimal digits denoting a positive value that fits the id type.
pub fn parse_user_id(s: &str) -> (r: Option<i32>)
    ensures
        match r {
            Some(v) => spec_parse_user_id(s@) == Some(v as int),
            None => spec_parse_user_id(s@) is None,
        },
{
    let n = s.unicode_len();
    let mut start: usize = 0;
    if n > 0 && s.get_char(0) == '+' {
        start = 1;
    }
    let ghost body: Seq<char> = if start == 1 {
        s@.skip(1)
    } else {
        s@
    };
    if n == start {
        return None;
    }
    let mut val: u64 = 0;
    let mut i: usize = start;
    while i < n
        invariant
            start <= i <= n,
            n == s@.len(),
            start == 0 || start == 1,
            start == 1 <==> n > 0 && s@[0] == '+',
            body == (if start == 1 {
                s@.skip(1)
            } else {
                s@
            }),
            body.len() == n - start,
            forall|j: int| 0 <= j < i - start ==> is_digit_char(#[trigger] body[j]),
            val as int == digits_value(body.subrange(0, i - start)),
            val <= i32::MAX,
        decreases n - i,
    {
        let c = s.get_char(i);
        proof {
            assert(body[i - start] == s@[i as int]);
        }
        let cv = c as u32;
        if cv < 48 || cv > 57 {
            proof {
                assert(!is_digit_char(body[i - start]));
                assert(!all_digits(body));
            }
            return None;
        }
        let d = (cv - 48) as u64;
        let next = val * 10 + d;
        proof {
            let sub = body.subrange(0, i - start + 1);
            assert(sub.drop_last() =~= body.subrange(0, i - start));
            assert(sub.last() == body[i - start]);
            assert(next as int == digits_value(sub));
        }
        if next > i32::MAX as u64 {
            proof {
                if all_digits(body) {
                    lemma_digits_value_prefix_le(body, i - start + 1);
                }
            }
            return None;
        }
        val = next;
        i = i + 1;
    }
    proof {
        assert(body.subrange(0, n - start) =~= body);
    }
    if val == 0 {
        return None;
    }
    Some(val as i32)
}

/// The decimal rendering of a number, most significant digit first.
pub open spec fn spec_digit_char(d: int) -> char {
    if d == 0 {
        '0'
    } else if d == 1 {
        '1'
    } else if d == 2 {
        '2'
    } else if d == 3 {
        '3'
    } else if d == 4 {
        '4'
    } else if d == 5 {
        '5'
    } else if d == 6 {
        '6'
    } else if d == 7 {
        '7'
    } else if d == 8 {
        '8'
    } else {
        '9'
    }
}

/// The decimal rendering of a number, most significant digit first.
pub open spec fn spec_decimal(n: nat) -> Seq<char>
    decreases n,
{
    if n < 10 {
        seq![spec_digit_char(n as int)]
    } else {
        spec_decimal(n / 10).push(spec_digit_char((n % 10) as int))
    }
}

/// The text of a single decimal digit.
fn digit_str(d: u32) -> (r: &'static str)
    requires
        d <= 9,
    ensures
        r@ == seq![spec_digit_char(d as int)],
{
    match d {
        0 => {
            proof {
                reveal_strlit("0");
                assert("0"@ =~= seq!['0']);
            }
            "0"
        },
        1 => {
            proof {
                reveal_strlit("1");
                assert("1"@ =~= seq!['1']);
            }
            "1"
        },
        2 => {
            proof {
                reveal_strlit("2");
                assert("2"@ =~= seq!['2']);
            }
            "2"
        },
        3 => {
            proof {
                reveal_strlit("3");
                assert("3"@ =~= seq!['3']);
            }
            "3"
        },
        4 => {
            proof {
                reveal_strlit("4");
                assert("4"@ =~= seq!['4']);
            }
            "4"
        },
        5 => {
            proof {
                reveal_strlit("5");
                assert("5"@ =~= seq!['5']);
            }
            "5"
        },
        6 => {
            proof {
                reveal_strlit("6");
                assert("6"@ =~= seq!['6']);
            }
            "6"
        },
        7 => {
            proof {
                reveal_strlit("7");
                assert("7"@ =~= seq!['7']);
            }
            "7"
        },
        8 => {
            proof {
                reveal_strlit("8");
                assert("8"@ =~= seq!['8']);
            }
            "8"
        },
        _ => {
            proof {
                reveal_strlit("9");
                assert("9"@ =~= seq!['9']);
            }
            "9"
        },
    }
}

/// Render a number in decimal, most significant digit first.
pub fn u32_decimal(n: u32) -> (r: String)
    ensures
        r@ == spec_decimal(n as nat),
    decreases n,
{
    if n < 10 {
        String::from_str(digit_str(n))
    } else {
        let mut s = u32_decimal(n / 10);
        s.append(digit_str(n % 10));
        proof {
            assert((n / 10) as nat == (n as nat) / 10);
            assert((n % 10) as nat == (n as nat) % 10);
        }
        s
    }
}

// ---------------------------------------------------------------------------
// The three operations
// ---------------------------------------------------------------------------

/// Register a user: validate the payload, build the storage request, and
/// translate the storage outcome. Succeeds exactly on a valid payload
/// whose username is not yet stored, while the id space lasts; on any
/// failure the store is left untouched.
pub fn handle_create_user(db: &mut Database, payload: &CreateUserPayload) -> (r: Result<
    CreateUserResponse,
    ApiError,
>)
    requires
        old(db)@.wf(),
    ensures
        final(db)@.wf(),
        match r {
            Ok(resp) => {
                &&& payload@.valid()
                &&& !old(db)@.has_username(payload@.username)
                &&& old(db)@.next_id < i32::MAX
                &&& final(db)@ == old(db)@.after_create(spec_request_of_payload(payload@))
                &&& resp.user_id as int == old(db)@.next_id
            },
            Err(e) => {
                &&& *final(db) == *old(db)
                &&& if !payload@.valid() {
                    &&& e.status == 400
                    &&& e.body.error@ == "VALIDATION_ERROR"@
                    &&& e.body.message@ == payload@.first_error_message()
                } else if old(db)@.has_username(payload@.username) {
                    &&& e.status == 409
                    &&& e.body.error@ == "DUPLICATE_USERNAME"@
                    &&& e.body.message@ == "Username '"@ + payload@.username
                        + "' already exists"@
                } else {
                    &&& old(db)@.next_id == i32::MAX
                    &&& e.status == 500
                    &&& e.body.error@ == "INTERNAL_ERROR"@
                    &&& e.body.message@ == "Failed to create user"@
                }
            },
        },
{
    if let Err(e) = validate_create_user(payload) {
        return Err(ApiError { status: 400, body: e });
    }
    let request = build_create_request(payload);
    match db.create_user(&request) {
        Ok(user_id) => Ok(CreateUserResponse { user_id }),
        Err(DatabaseError::DuplicateUsername) => {
            let mut message = String::from_str("Username '");
            message.append(payload.username.as_str());
            message.append("' already exists");
            Err(
                ApiError {
                    status: 409,
                    body: ErrorResponse {
                        error: String::from_str("DUPLICATE_USERNAME"),
                        message,
                    },
                },
            )
        },
        Err(DatabaseError::ConnectionError(_)) => Err(
            ApiError {
                status: 503,
                body: ErrorResponse {
                    error: String::from_str("DATABASE_UNAVAILABLE"),
                    message: String::from_str("Database connection failed"),
                },
            },
        ),
        Err(_) => Err(
            ApiError {
                status: 500,
                body: ErrorResponse {
                    error: String::from_str("INTERNAL_ERROR"),
                    message: String::from_str("Failed to create user"),
                },
            },
        ),
    }
}

/// Both login fields are present.
pub open spec fn login_payload_valid(p: LoginPayloadView) -> bool {
    p.username.len() >= 1 && p.password.len() >= 1
}

/// The message reported for the first missing login field.
pub open spec fn login_first_error_message(p: LoginPayloadView) -> Seq<char>
    recommends
        !login_payload_valid(p),
{
    if p.username.len() == 0 {
        "Username is required"@
    } else {
        "Password is required"@
    }
}

/// Log a user in: look the username up and compare the stored password
/// byte for byte. A missing user and a wrong password are answered alike,
/// as invalid credentials.
pub fn handle_login(db: &Database, payload: &LoginPayload) -> (r: Result<LoginResponse, ApiError>)
    requires
        db@.wf(),
    ensures
        match r {
            Ok(resp) => {
                &&& login_payload_valid(payload@)
                &&& db@.has_username(payload@.username)
                &&& db@.user_row_by_name(payload@.username).password == payload@.password
                &&& resp.user_id as int == db@.user_row_by_name(payload@.username).id
            },
            Err(e) => if !login_payload_valid(payload@) {
                &&& e.status == 400
                &&& e.body.error@ == "VALIDATION_ERROR"@
                &&& e.body.message@ == login_first_error_message(payload@)
            } else {
                &&& (!db@.has_username(payload@.username) || db@.user_row_by_name(
                    payload@.username,
                ).password != payload@.password)
                &&& e.status == 401
                &&& e.body.error@ == "INVALID_CREDENTIALS"@
                &&& e.body.message@ == "Invalid username or password"@
            },
        },
{
    if payload.username.as_str().unicode_len() == 0 {
        return Err(ApiError { status: 400, body: validation_error("Username is required") });
    }
    if payload.password.as_str().unicode_len() == 0 {
        return Err(ApiError { status: 400, body: validation_error("Password is required") });
    }
    match db.authenticate_user(payload.username.as_str()) {
        Ok((user_id, stored_password)) => {
            if stored_password == payload.password {
                Ok(LoginResponse { user_id })
            } else {
                Err(
                    ApiError {
                        status: 401,
                        body: ErrorResponse {
                            error: String::from_str("INVALID_CREDENTIALS"),
                            message: String::from_str("Invalid username or password"),
                        },
                    },
                )
            }
        },
        Err(DatabaseError::UserNotFound) => Err(
            ApiError {
                status: 401,
                body: ErrorResponse {
                    error: String::from_str("INVALID_CREDENTIALS"),
                    message: String::from_str("Invalid username or password"),
                },
            },
        ),
        Err(DatabaseError::ConnectionError(_)) => Err(
            ApiError {
                status: 503,
                body: ErrorResponse {
                    error: String::from_str("DATABASE_UNAVAILABLE"),
                    message: String::from_str("Database connection failed"),
                },
            },
        ),
        Err(_) => Err(
            ApiError {
                status: 500,
                body: ErrorResponse {
                    error: String::from_str("INTERNAL_ERROR"),
                    message: String::from_str("Login failed"),
                },
            },
        ),
    }
}

/// Read a user's aggregated info by the id text taken from the route:
/// parse and check the id, read the user, and aggregate the answer.
pub fn handle_get_user_info(db: &Database, user_id: &str) -> (r: Result<UserInfoResponse, ApiError>)
    requires
        db@.wf(),
    ensures
        match r {
            Ok(resp) => {
                &&& spec_parse_user_id(user_id@) matches Some(id) && db@.has_user_id(id)
                    && resp@ == spec_user_info(db@.aggregated_user(id))
            },
            Err(e) => if spec_parse_user_id(user_id@) is None {
                &&& e.status == 400
                &&& e.body.error@ == "VALIDATION_ERROR"@
                &&& e.body.message@ == "user_id must be a positive integer"@
            } else {
                &&& spec_parse_user_id(user_id@) matches Some(id) && !db@.has_user_id(id)
                    && e.body.message@ == "User with ID "@ + spec_decimal(id as nat)
                    + " not found"@
                &&& e.status == 404
                &&& e.body.error@ == "USER_NOT_FOUND"@
            },
        },
{
    let id = match parse_user_id(user_id) {
        Some(v) => v,
        None => {
            return Err(
                ApiError {
                    status: 400,
                    body: validation_error("user_id must be a positive integer"),
                },
            );
        },
    };
    match db.find_user_by_id(id) {
        Ok(user) => Ok(UserInfoResponse::from_user(&user)),
        Err(DatabaseError::UserNotFound) => {
            let mut message = String::from_str("User with ID ");
            message.append(u32_decimal(id as u32).as_str());
            message.append(" not found");
            Err(
                ApiError {
                    status: 404,
                    body: ErrorResponse {
                        error: String::from_str("USER_NOT_FOUND"),
                        message,
                    },
                },
            )
        },
        Err(DatabaseError::ConnectionError(_)) => Err(
            ApiError {
                status: 503,
                body: ErrorResponse {
                    error: String::from_str("DATABASE_UNAVAILABLE"),
                    message: String::from_str("Database connection failed"),
                },
            },
        ),
        Err(_) => Err(
            ApiError {
                status: 500,
                body: ErrorResponse {
                    error: String::from_str("INTERNAL_ERROR"),
                    message: String::from_str("Failed to fetch user"),
                },
            },
        ),
    }
}

} // verus!
