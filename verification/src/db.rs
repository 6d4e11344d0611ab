//! Normalized user storage: three relations (`users`, `user_profiles`,
//! `user_metadata`) held by an in-memory engine, with atomic multi-row
//! creation, aggregated reads, and translation of backend failures into
//! the domain error taxonomy.

use vstd::prelude::*;

verus! {

// ---------------------------------------------------------------------------
// Domain records and their mathematical views
// ---------------------------------------------------------------------------

/// Optional 1:1 extension of a user: display attributes.
#[derive(Debug)]
pub struct UserProfile {
    pub first_name: Option<String>,
    pub last_name: Option<String>,
    pub email: Option<String>,
}

#[verifier::ext_equal]
pub struct UserProfileView {
    pub first_name: Option<Seq<char>>,
    pub last_name: Option<Seq<char>>,
    pub email: Option<Seq<char>>,
}

impl View for UserProfile {
    type V = UserProfileView;

    open spec fn view(&self) -> UserProfileView {
        UserProfileView {
            first_name: self.first_name.deep_view(),
            last_name: self.last_name.deep_view(),
            email: self.email.deep_view(),
        }
    }
}

impl DeepView for UserProfile {
    type V = UserProfileView;

    open spec fn deep_view(&self) -> UserProfileView {
        self.view()
    }
}

/// Optional 1:N extension of a user: one named property with an optional
/// value and an optional grouping key.
#[derive(Debug)]
pub struct UserMetadata {
    pub parent_property: Option<String>,
    pub property: String,
    pub value: Option<String>,
}

#[verifier::ext_equal]
pub struct UserMetadataView {
    pub parent_property: Option<Seq<char>>,
    pub property: Seq<char>,
    pub value: Option<Seq<char>>,
}

impl View for UserMetadata {
    type V = UserMetadataView;

    open spec fn view(&self) -> UserMetadataView {
        UserMetadataView {
            parent_property: self.parent_property.deep_view(),
            property: self.property@,
            value: self.value.deep_view(),
        }
    }
}

impl DeepView for UserMetadata {
    type V = UserMetadataView;

    open spec fn deep_view(&self) -> UserMetadataView {
        self.view()
    }
}

/// A fully aggregated user record: core row, optional profile, and the
/// ordered list of metadata rows.
#[derive(Debug)]
pub struct User {
    pub id: i32,
    pub username: String,
    pub password: String,
    pub created_at: i64,
    pub updated_at: i64,
    pub profile: Option<UserProfile>,
    pub metadata: Vec<UserMetadata>,
}

#[verifier::ext_equal]
pub struct UserView {
    pub id: int,
    pub username: Seq<char>,
    pub password: Seq<char>,
    pub created_at: int,
    pub updated_at: int,
    pub profile: Option<UserProfileView>,
    pub metadata: Seq<UserMetadataView>,
}

impl View for User {
    type V = UserView;

    open spec fn view(&self) -> UserView {
        UserView {
            id: self.id as int,
            username: self.username@,
            password: self.password@,
            created_at: self.created_at as int,
            updated_at: self.updated_at as int,
            profile: self.profile.deep_view(),
            metadata: self.metadata.deep_view(),
        }
    }
}

/// Everything needed to register a user in one atomic operation.
#[derive(Debug)]
pub struct CreateUserRequest {
    pub username: String,
    pub password: String,
    pub profile: Option<UserProfile>,
    pub metadata: Vec<UserMetadata>,
}

#[verifier::ext_equal]
pub struct CreateUserRequestView {
    pub username: Seq<char>,
    pub password: Seq<char>,
    pub profile: Option<UserProfileView>,
    pub metadata: Seq<UserMetadataView>,
}

impl View for CreateUserRequest {
    type V = CreateUserRequestView;

    open spec fn view(&self) -> CreateUserRequestView {
        CreateUserRequestView {
            username: self.username@,
            password: self.password@,
            profile: self.profile.deep_view(),
            metadata: self.metadata.deep_view(),
        }
    }
}

/// The domain error taxonomy: every storage failure is translated exactly
/// once into one of these four kinds.
#[derive(Debug)]
pub enum DatabaseError {
    ConnectionError(String),
    DuplicateUsername,
    UserNotFound,
    QueryError(String),
}

// ---------------------------------------------------------------------------
// Translation of backend failures into the domain taxonomy
// ---------------------------------------------------------------------------

/// What a failing storage backend reports, reduced to plain values. The
/// caller extracts these from its driver and asks for translation exactly
/// once, at this boundary.
#[derive(Debug)]
pub enum BackendFailure {
    /// The backend answered that no row matches.
    RowNotFound,
    /// The backend rejected a statement and reported a message.
    Report(String),
    /// Any other driver-level failure, described as text.
    Other(String),
}

/// `pat` occurs contiguously somewhere in `text`.
pub open spec fn is_substring(pat: Seq<char>, text: Seq<char>) -> bool {
    exists|i: int|
        0 <= i && i + pat.len() <= text.len() && #[trigger] text.subrange(i, i + pat.len()) == pat
}

/// A rejection message that signals a violated uniqueness constraint, in
/// either of the two dialects the engine understands.
pub open spec fn message_reports_duplicate(msg: Seq<char>) -> bool {
    is_substring("Duplicate entry"@, msg) || is_substring("UNIQUE"@, msg)
}

/// Whether `pat` matches `text` at position `i`.
fn match_at(text: &str, pat: &str, i: usize) -> (r: bool)
    requires
        i + pat@.len() <= text@.len(),
        text@.len() <= usize::MAX,
    ensures
        r == (text@.subrange(i as int, i as int + pat@.len()) == pat@),
{
    let m = pat.unicode_len();
    let mut j: usize = 0;
    while j < m
        invariant
            j <= m,
            m == pat@.len(),
            i + m <= text@.len(),
            text@.len() <= usize::MAX,
            forall|t: int| 0 <= t < j ==> text@[i + t] == pat@[t],
        decreases m - j,
    {
        if text.get_char(i + j) != pat.get_char(j) {
            proof {
                assert(text@.subrange(i as int, i as int + pat@.len())[j as int] != pat@[
                j as int]);
            }
            return false;
        }
        j = j + 1;
    }
    proof {
        assert(text@.subrange(i as int, i as int + pat@.len()) =~= pat@);
    }
    true
}

/// Whether `pat` occurs contiguously somewhere in `text`.
pub fn contains_substring(text: &str, pat: &str) -> (r: bool)
    ensures
        r == is_substring(pat@, text@),
{
    let n = text.unicode_len();
    let m = pat.unicode_len();
    if m > n {
        return false;
    }
    if m == 0 {
        proof {
            assert(text@.subrange(0, 0 + pat@.len() as int) =~= pat@);
        }
        return true;
    }
    let mut i: usize = 0;
    while i <= n - m
        invariant
            1 <= m <= n,
            n == text@.len(),
            m == pat@.len(),
            i <= n - m + 1,
            forall|j: int|
                0 <= j < i ==> #[trigger] text@.subrange(j, j + pat@.len()) != pat@,
        decreases n - i,
    {
        if match_at(text, pat, i) {
            return true;
        }
        i = i + 1;
    }
    false
}

/// Translate one backend failure into the domain taxonomy: a missing row is
/// `UserNotFound`; a rejection whose message signals a violated uniqueness
/// constraint is `DuplicateUsername`; everything else is `QueryError`
/// carrying the backend's own words.
pub fn map_backend_error(err: BackendFailure) -> (r: DatabaseError)
    ensures
        match err {
            BackendFailure::RowNotFound => r is UserNotFound,
            BackendFailure::Report(m) => if message_reports_duplicate(m@) {
                r is DuplicateUsername
            } else {
                r matches DatabaseError::QueryError(q) && q@ == m@
            },
            BackendFailure::Other(m) => r matches DatabaseError::QueryError(q) && q@ == m@,
        },
{
    match err {
        BackendFailure::RowNotFound => DatabaseError::UserNotFound,
        BackendFailure::Report(m) => {
            if contains_substring(m.as_str(), "Duplicate entry") || contains_substring(
                m.as_str(),
                "UNIQUE",
            ) {
                DatabaseError::DuplicateUsername
            } else {
                DatabaseError::QueryError(m)
            }
        },
        BackendFailure::Other(m) => DatabaseError::QueryError(m),
    }
}

// ---------------------------------------------------------------------------
// Small cloning helpers with exact contracts
// ---------------------------------------------------------------------------

/// Clone an optional string, field for field.
pub fn clone_opt_string(o: &Option<String>) -> (r: Option<String>)
    ensures
        r == *o,
{
    match o {
        Some(s) => Some(s.clone()),
        None => None,
    }
}

/// Clone one metadata entry, field for field.
pub fn clone_metadata_entry(m: &UserMetadata) -> (r: UserMetadata)
    ensures
        r == *m,
{
    UserMetadata {
        parent_property: clone_opt_string(&m.parent_property),
        property: m.property.clone(),
        value: clone_opt_string(&m.value),
    }
}

/// Clone a metadata list, entry for entry.
pub fn clone_metadata_list(v: &Vec<UserMetadata>) -> (r: Vec<UserMetadata>)
    ensures
        r.deep_view() == v.deep_view(),
{
    let mut out: Vec<UserMetadata> = Vec::new();
    let mut i: usize = 0;
    while i < v.len()
        invariant
            i <= v.len(),
            out.deep_view() =~= v.deep_view().subrange(0, i as int),
        decreases v.len() - i,
    {
        let ghost pre = out.deep_view();
        out.push(clone_metadata_entry(&v[i]));
        proof {
            assert(out.deep_view() =~= pre.push(v@[i as int].deep_view()));
            assert(out.deep_view() =~= v.deep_view().subrange(0, i as int + 1));
        }
        i = i + 1;
    }
    assert(v.deep_view().subrange(0, v.len() as int) =~= v.deep_view());
    out
}

// ---------------------------------------------------------------------------
// The three relations
// ---------------------------------------------------------------------------

/// One row of the `users` relation: identity and credential.
#[derive(Debug)]
pub struct UserRow {
    pub id: i32,
    pub username: String,
    pub password: String,
    pub created_at: i64,
    pub updated_at: i64,
}

#[verifier::ext_equal]
pub struct UserRowView {
    pub id: int,
    pub username: Seq<char>,
    pub password: Seq<char>,
    pub created_at: int,
    pub updated_at: int,
}

impl View for UserRow {
    type V = UserRowView;

    open spec fn view(&self) -> UserRowView {
        UserRowView {
            id: self.id as int,
            username: self.username@,
            password: self.password@,
            created_at: self.created_at as int,
            updated_at: self.updated_at as int,
        }
    }
}

impl DeepView for UserRow {
    type V = UserRowView;

    open spec fn deep_view(&self) -> UserRowView {
        self.view()
    }
}

/// One row of the `user_profiles` relation, keyed by its owning user.
#[derive(Debug)]
pub struct ProfileRow {
    pub user_id: i32,
    pub first_name: Option<String>,
    pub last_name: Option<String>,
    pub email: Option<String>,
}

#[verifier::ext_equal]
pub struct ProfileRowView {
    pub user_id: int,
    pub first_name: Option<Seq<char>>,
    pub last_name: Option<Seq<char>>,
    pub email: Option<Seq<char>>,
}

impl View for ProfileRow {
    type V = ProfileRowView;

    open spec fn view(&self) -> ProfileRowView {
        ProfileRowView {
            user_id: self.user_id as int,
            first_name: self.first_name.deep_view(),
            last_name: self.last_name.deep_view(),
            email: self.email.deep_view(),
        }
    }
}

impl DeepView for ProfileRow {
    type V = ProfileRowView;

    open spec fn deep_view(&self) -> ProfileRowView {
        self.view()
    }
}

/// One row of the `user_metadata` relation, keyed by its owning user.
#[derive(Debug)]
pub struct MetadataRow {
    pub user_id: i32,
    pub parent_property: Option<String>,
    pub property: String,
    pub value: Option<String>,
}

#[verifier::ext_equal]
pub struct MetadataRowView {
    pub user_id: int,
    pub parent_property: Option<Seq<char>>,
    pub property: Seq<char>,
    pub value: Option<Seq<char>>,
}

impl View for MetadataRow {
    type V = MetadataRowView;

    open spec fn view(&self) -> MetadataRowView {
        MetadataRowView {
            user_id: self.user_id as int,
            parent_property: self.parent_property.deep_view(),
            property: self.property@,
            value: self.value.deep_view(),
        }
    }
}

impl DeepView for MetadataRow {
    type V = MetadataRowView;

    open spec fn deep_view(&self) -> MetadataRowView {
        self.view()
    }
}

// ---------------------------------------------------------------------------
// Row construction and aggregation, at the specification level
// ---------------------------------------------------------------------------

/// The `users` row that registration writes for a request.
pub open spec fn user_row_of(req: CreateUserRequestView, id: int, now: int) -> UserRowView {
    UserRowView {
        id: id,
        username: req.username,
        password: req.password,
        created_at: now,
        updated_at: now,
    }
}

/// The `user_profiles` row that registration writes for a profile.
pub open spec fn profile_row_of(p: UserProfileView, id: int) -> ProfileRowView {
    ProfileRowView {
        user_id: id,
        first_name: p.first_name,
        last_name: p.last_name,
        email: p.email,
    }
}

/// The `user_metadata` row that registration writes for one entry.
pub open spec fn metadata_row_of(m: UserMetadataView, id: int) -> MetadataRowView {
    MetadataRowView {
        user_id: id,
        parent_property: m.parent_property,
        property: m.property,
        value: m.value,
    }
}

/// The `user_metadata` rows that registration writes for a whole request.
pub open spec fn metadata_rows_of(entries: Seq<UserMetadataView>, id: int) -> Seq<MetadataRowView> {
    entries.map_values(|m: UserMetadataView| metadata_row_of(m, id))
}

/// The metadata entry that an aggregated read yields for a stored row.
pub open spec fn entry_of_row(r: MetadataRowView) -> UserMetadataView {
    UserMetadataView {
        parent_property: r.parent_property,
        property: r.property,
        value: r.value,
    }
}

/// The metadata entries of one user, in storage order.
pub open spec fn metadata_entries_for(rows: Seq<MetadataRowView>, id: int) -> Seq<UserMetadataView>
    decreases rows.len(),
{
    if rows.len() == 0 {
        Seq::empty()
    } else {
        let init = metadata_entries_for(rows.drop_last(), id);
        if rows.last().user_id == id {
            init.push(entry_of_row(rows.last()))
        } else {
            init
        }
    }
}

/// The profile an aggregated read yields: present only when the stored row
/// exists and carries at least one non-null field.
pub open spec fn aggregated_profile(row: Option<ProfileRowView>) -> Option<UserProfileView> {
    match row {
        Some(p) => if p.first_name is Some || p.last_name is Some || p.email is Some {
            Some(
                UserProfileView {
                    first_name: p.first_name,
                    last_name: p.last_name,
                    email: p.email,
                },
            )
        } else {
            None
        },
        None => None,
    }
}

// ---------------------------------------------------------------------------
// The storage engine
// ---------------------------------------------------------------------------

/// In-memory storage engine owning the three relations. Registration is
/// atomic: either every row of a request becomes visible, or none does.
#[derive(Debug)]
pub struct Database {
    users: Vec<UserRow>,
    profiles: Vec<ProfileRow>,
    metadata: Vec<MetadataRow>,
    next_id: i32,
    now: i64,
}

#[verifier::ext_equal]
pub struct DbView {
    pub users: Seq<UserRowView>,
    pub profiles: Seq<ProfileRowView>,
    pub metadata: Seq<MetadataRowView>,
    pub next_id: int,
    pub now: int,
}

impl View for Database {
    type V = DbView;

    closed spec fn view(&self) -> DbView {
        DbView {
            users: self.users.deep_view(),
            profiles: self.profiles.deep_view(),
            metadata: self.metadata.deep_view(),
            next_id: self.next_id as int,
            now: self.now as int,
        }
    }
}

impl DbView {
    /// Some user row carries this id.
    pub open spec fn has_user_id(self, id: int) -> bool {
        exists|i: int| 0 <= i < self.users.len() && (#[trigger] self.users[i]).id == id
    }

    /// Some user row carries this username.
    pub open spec fn has_username(self, name: Seq<char>) -> bool {
        exists|i: int| 0 <= i < self.users.len() && (#[trigger] self.users[i]).username == name
    }

    /// The user row carrying this id; under `wf` there is at most one.
    pub open spec fn user_row(self, id: int) -> UserRowView
        recommends
            self.has_user_id(id),
    {
        self.users[choose|i: int| 0 <= i < self.users.len() && (#[trigger] self.users[i]).id == id]
    }

    /// The user row carrying this username; under `wf` there is at most one.
    pub open spec fn user_row_by_name(self, name: Seq<char>) -> UserRowView
        recommends
            self.has_username(name),
    {
        self.users[choose|i: int|
            0 <= i < self.users.len() && (#[trigger] self.users[i]).username == name]
    }

    /// The stored profile row of one user, if any; under `wf` at most one.
    pub open spec fn profile_row_for(self, id: int) -> Option<ProfileRowView> {
        if exists|i: int| 0 <= i < self.profiles.len() && (#[trigger] self.profiles[i]).user_id
            == id {
            Some(
                self.profiles[choose|i: int|
                    0 <= i < self.profiles.len() && (#[trigger] self.profiles[i]).user_id == id],
            )
        } else {
            None
        }
    }

    /// The metadata entries of one user, in storage order.
    pub open spec fn metadata_for(self, id: int) -> Seq<UserMetadataView> {
        metadata_entries_for(self.metadata, id)
    }

    /// Referential integrity and key uniqueness across the three relations.
    pub open spec fn wf(self) -> bool {
        &&& 1 <= self.next_id <= i32::MAX
        &&& forall|i: int|
            0 <= i < self.users.len() ==> 1 <= (#[trigger] self.users[i]).id < self.next_id
        &&& forall|i: int, j: int|
            #![trigger self.users[i], self.users[j]]
            0 <= i < j < self.users.len() ==> self.users[i].id != self.users[j].id
                && self.users[i].username != self.users[j].username
        &&& forall|i: int|
            0 <= i < self.profiles.len() ==> self.has_user_id(
                (#[trigger] self.profiles[i]).user_id,
            )
        &&& forall|i: int, j: int|
            #![trigger self.profiles[i], self.profiles[j]]
            0 <= i < j < self.profiles.len() ==> self.profiles[i].user_id
                != self.profiles[j].user_id
        &&& forall|i: int|
            0 <= i < self.metadata.len() ==> self.has_user_id(
                (#[trigger] self.metadata[i]).user_id,
            )
    }

    /// The state after a successful registration: one user row, an optional
    /// profile row, one metadata row per entry, and the next id advanced.
    pub open spec fn after_create(self, req: CreateUserRequestView) -> DbView {
        DbView {
            users: self.users.push(user_row_of(req, self.next_id, self.now)),
            profiles: match req.profile {
                Some(p) => self.profiles.push(profile_row_of(p, self.next_id)),
                None => self.profiles,
            },
            metadata: self.metadata + metadata_rows_of(req.metadata, self.next_id),
            next_id: self.next_id + 1,
            now: self.now,
        }
    }

    /// The aggregated record of one user: core row joined with its profile
    /// row, plus all of its metadata entries.
    pub open spec fn aggregated_user(self, id: int) -> UserView
        recommends
            self.has_user_id(id),
    {
        let row = self.user_row(id);
        UserView {
            id: row.id,
            username: row.username,
            password: row.password,
            created_at: row.created_at,
            updated_at: row.updated_at,
            profile: aggregated_profile(self.profile_row_for(id)),
            metadata: self.metadata_for(id),
        }
    }
}

/// Well-formedness does not depend on the clock: it carries over between
/// two states whose relations and id counter agree.
proof fn lemma_wf_same_relations(a: DbView, b: DbView)
    requires
        a.wf(),
        b.users == a.users,
        b.profiles == a.profiles,
        b.metadata == a.metadata,
        b.next_id == a.next_id,
    ensures
        b.wf(),
{
    assert forall|id: int| a.has_user_id(id) implies b.has_user_id(id) by {
        let i = choose|i: int| 0 <= i < a.users.len() && (#[trigger] a.users[i]).id == id;
        assert(0 <= i < b.users.len() && b.users[i].id == id);
    }
}

/// Every id referenced by a profile or metadata row of a well-formed state
/// is below the id counter, because it belongs to some stored user.
proof fn lemma_wf_referenced_ids_below_counter(db: DbView)
    requires
        db.wf(),
    ensures
        forall|i: int|
            0 <= i < db.profiles.len() ==> (#[trigger] db.profiles[i]).user_id < db.next_id,
        forall|i: int|
            0 <= i < db.metadata.len() ==> (#[trigger] db.metadata[i]).user_id < db.next_id,
{
    assert forall|i: int|
        0 <= i < db.profiles.len() implies (#[trigger] db.profiles[i]).user_id < db.next_id by {
        let k = choose|k: int|
            0 <= k < db.users.len() && (#[trigger] db.users[k]).id == db.profiles[i].user_id;
        assert(db.users[k].id < db.next_id);
    }
    assert forall|i: int|
        0 <= i < db.metadata.len() implies (#[trigger] db.metadata[i]).user_id < db.next_id by {
        let k = choose|k: int|
            0 <= k < db.users.len() && (#[trigger] db.users[k]).id == db.metadata[i].user_id;
        assert(db.users[k].id < db.next_id);
    }
}

/// A successful registration preserves well-formedness: the new rows carry
/// a fresh id and a username no stored user carries.
pub proof fn lemma_after_create_wf(db: DbView, req: CreateUserRequestView)
    requires
        db.wf(),
        !db.has_username(req.username),
        db.next_id < i32::MAX,
    ensures
        db.after_create(req).wf(),
{
    let db2 = db.after_create(req);
    let n = db.users.len() as int;
    lemma_wf_referenced_ids_below_counter(db);
    assert forall|i: int|
        0 <= i < db2.users.len() implies 1 <= (#[trigger] db2.users[i]).id < db2.next_id by {
        if i < n {
            assert(db2.users[i] == db.users[i]);
        } else {
            assert(db2.users[i] == user_row_of(req, db.next_id, db.now));
        }
    }
    assert forall|i: int, j: int|
        #![trigger db2.users[i], db2.users[j]]
        0 <= i < j < db2.users.len() implies db2.users[i].id != db2.users[j].id
        && db2.users[i].username != db2.users[j].username by {
        assert(db2.users[i] == db.users[i]);
        if j < n {
            assert(db2.users[j] == db.users[j]);
        } else {
            assert(db2.users[j] == user_row_of(req, db.next_id, db.now));
            assert(db.users[i].id < db.next_id);
            assert(db.users[i].username != req.username);
        }
    }
    assert forall|id: int| db.has_user_id(id) implies db2.has_user_id(id) by {
        let k = choose|k: int| 0 <= k < db.users.len() && (#[trigger] db.users[k]).id == id;
        assert(db2.users[k].id == id);
    }
    assert(db2.users[n].id == db.next_id);
    assert(db2.has_user_id(db.next_id));
    assert forall|i: int|
        0 <= i < db2.profiles.len() implies db2.has_user_id(
        (#[trigger] db2.profiles[i]).user_id,
    ) by {
        if i < db.profiles.len() {
            assert(db2.profiles[i] == db.profiles[i]);
            assert(db.has_user_id(db.profiles[i].user_id));
        } else {
            assert(db2.profiles[i].user_id == db.next_id);
        }
    }
    assert forall|i: int, j: int|
        #![trigger db2.profiles[i], db2.profiles[j]]
        0 <= i < j < db2.profiles.len() implies db2.profiles[i].user_id
        != db2.profiles[j].user_id by {
        assert(db2.profiles[i] == db.profiles[i]);
        if j < db.profiles.len() {
            assert(db2.profiles[j] == db.profiles[j]);
        } else {
            assert(db2.profiles[j].user_id == db.next_id);
            assert(db.profiles[i].user_id < db.next_id);
        }
    }
    assert forall|i: int|
        0 <= i < db2.metadata.len() implies db2.has_user_id(
        (#[trigger] db2.metadata[i]).user_id,
    ) by {
        if i < db.metadata.len() {
            assert(db2.metadata[i] == db.metadata[i]);
            assert(db.has_user_id(db.metadata[i].user_id));
        } else {
            let k = i - db.metadata.len();
            assert(metadata_rows_of(req.metadata, db.next_id)[k] == metadata_row_of(
                req.metadata[k],
                db.next_id,
            ));
            assert(db2.metadata[i].user_id == db.next_id);
        }
    }
}

/// Gathering the entries of one user distributes over concatenation of the
/// metadata relation.
proof fn lemma_metadata_entries_concat(a: Seq<MetadataRowView>, b: Seq<MetadataRowView>, id: int)
    ensures
        metadata_entries_for(a + b, id) == metadata_entries_for(a, id) + metadata_entries_for(
            b,
            id,
        ),
    decreases b.len(),
{
    if b.len() == 0 {
        assert(a + b =~= a);
        assert(metadata_entries_for(a, id) + metadata_entries_for(b, id) =~= metadata_entries_for(
            a,
            id,
        ));
    } else {
        lemma_metadata_entries_concat(a, b.drop_last(), id);
        assert((a + b).drop_last() =~= a + b.drop_last());
        assert((a + b).last() == b.last());
        assert(metadata_entries_for(a, id) + metadata_entries_for(b, id) =~= (
        if b.last().user_id == id {
            (metadata_entries_for(a, id) + metadata_entries_for(b.drop_last(), id)).push(
                entry_of_row(b.last()),
            )
        } else {
            metadata_entries_for(a, id) + metadata_entries_for(b.drop_last(), id)
        }));
    }
}

/// A metadata relation in which no row belongs to the user yields no entry.
proof fn lemma_metadata_entries_absent(rows: Seq<MetadataRowView>, id: int)
    requires
        forall|i: int| 0 <= i < rows.len() ==> (#[trigger] rows[i]).user_id != id,
    ensures
        metadata_entries_for(rows, id) == Seq::<UserMetadataView>::empty(),
    decreases rows.len(),
{
    if rows.len() > 0 {
        lemma_metadata_entries_absent(rows.drop_last(), id);
    }
}

/// The rows registration writes for a user's entries read back as exactly
/// those entries, in order.
proof fn lemma_metadata_entries_own(entries: Seq<UserMetadataView>, id: int)
    ensures
        metadata_entries_for(metadata_rows_of(entries, id), id) == entries,
    decreases entries.len(),
{
    let rows = metadata_rows_of(entries, id);
    assert(rows.len() == entries.len());
    if entries.len() == 0 {
        assert(metadata_entries_for(rows, id) =~= entries);
    } else {
        lemma_metadata_entries_own(entries.drop_last(), id);
        assert(rows.drop_last() =~= metadata_rows_of(entries.drop_last(), id));
        assert(rows.last() == metadata_row_of(entries.last(), id));
        assert(entry_of_row(metadata_row_of(entries.last(), id)) =~= entries.last());
        assert(metadata_entries_for(rows, id) =~= entries);
    }
}

/// Round trip of registration and aggregated read: after a successful
/// registration, reading the returned id back yields a user whose username,
/// password, profile and metadata are exactly those of the request, stamped
/// with the server clock. (A supplied profile must carry at least one
/// non-null field: a profile of three nulls is stored but, by the
/// aggregation rule, reads back as absent.)
pub proof fn lemma_create_then_find_round_trip(db: DbView, req: CreateUserRequestView)
    requires
        db.wf(),
        !db.has_username(req.username),
        db.next_id < i32::MAX,
        req.profile matches Some(p) ==> p.first_name is Some || p.last_name is Some
            || p.email is Some,
    ensures
        db.after_create(req).wf(),
        db.after_create(req).has_user_id(db.next_id),
        db.after_create(req).aggregated_user(db.next_id).id == db.next_id,
        db.after_create(req).aggregated_user(db.next_id).username == req.username,
        db.after_create(req).aggregated_user(db.next_id).password == req.password,
        db.after_create(req).aggregated_user(db.next_id).profile == req.profile,
        db.after_create(req).aggregated_user(db.next_id).metadata == req.metadata,
        db.after_create(req).aggregated_user(db.next_id).created_at == db.now,
        db.after_create(req).aggregated_user(db.next_id).updated_at == db.now,
{
    let db2 = db.after_create(req);
    let id = db.next_id;
    let n = db.users.len() as int;
    lemma_after_create_wf(db, req);
    lemma_wf_referenced_ids_below_counter(db);

    // The id resolves to the freshly written core row: every older row
    // carries a smaller id.
    assert(db2.users[n].id == id);
    assert(db2.has_user_id(id));
    let k = choose|k: int| 0 <= k < db2.users.len() && (#[trigger] db2.users[k]).id == id;
    if k < n {
        assert(db2.users[k] == db.users[k]);
    }
    assert(k == n);
    assert(db2.user_row(id) == user_row_of(req, db.next_id, db.now));

    // The profile row read back is the one just written, or absent.
    match req.profile {
        Some(p) => {
            let np = db.profiles.len() as int;
            assert(db2.profiles[np] == profile_row_of(p, id));
            assert(db2.profiles[np].user_id == id);
            let j = choose|j: int|
                0 <= j < db2.profiles.len() && (#[trigger] db2.profiles[j]).user_id == id;
            if j < np {
                assert(db2.profiles[j] == db.profiles[j]);
            }
            assert(j == np);
            assert(db2.profile_row_for(id) == Some(profile_row_of(p, id)));
            assert((UserProfileView {
                first_name: p.first_name,
                last_name: p.last_name,
                email: p.email,
            }) =~= p);
        },
        None => {
            assert forall|i: int|
                0 <= i < db2.profiles.len() implies (#[trigger] db2.profiles[i]).user_id != id by {
                assert(db2.profiles[i] == db.profiles[i]);
            }
            assert(db2.profile_row_for(id) is None);
        },
    }

    // The metadata entries read back are exactly the request's entries: no
    // older row belongs to the fresh id.
    assert forall|i: int|
        0 <= i < db.metadata.len() implies (#[trigger] db.metadata[i]).user_id != id by {}
    lemma_metadata_entries_concat(db.metadata, metadata_rows_of(req.metadata, id), id);
    lemma_metadata_entries_absent(db.metadata, id);
    lemma_metadata_entries_own(req.metadata, id);
    assert(db2.metadata_for(id) =~= req.metadata);
}

impl Database {
    /// A fresh engine: empty relations, ids starting at 1, clock at zero.
    pub fn new() -> (db: Database)
        ensures
            db@.wf(),
            db@.users == Seq::<UserRowView>::empty(),
            db@.profiles == Seq::<ProfileRowView>::empty(),
            db@.metadata == Seq::<MetadataRowView>::empty(),
            db@.next_id == 1,
            db@.now == 0,
    {
        let db = Database {
            users: Vec::new(),
            profiles: Vec::new(),
            metadata: Vec::new(),
            next_id: 1,
            now: 0,
        };
        proof {
            assert(db@.users =~= Seq::<UserRowView>::empty());
            assert(db@.profiles =~= Seq::<ProfileRowView>::empty());
            assert(db@.metadata =~= Seq::<MetadataRowView>::empty());
        }
        db
    }

    /// Set the server clock; rows written afterwards are stamped with it.
    pub fn set_time(&mut self, now: i64)
        requires
            old(self)@.wf(),
        ensures
            final(self)@.wf(),
            final(self)@ == (DbView { now: now as int, ..old(self)@ }),
    {
        self.now = now;
        proof {
            assert(self@ =~= (DbView { now: now as int, ..old(self)@ }));
            lemma_wf_same_relations(old(self)@, self@);
        }
    }

    /// How many users are stored.
    pub fn user_count(&self) -> (n: usize)
        ensures
            n == self@.users.len(),
    {
        self.users.len()
    }

    /// Index of the user row carrying this username, if any.
    fn find_index_by_username(&self, username: &str) -> (r: Option<usize>)
        ensures
            match r {
                Some(i) => i < self@.users.len() && self@.users[i as int].username == username@,
                None => !self@.has_username(username@),
            },
    {
        let key = String::from_str(username);
        let mut i: usize = 0;
        while i < self.users.len()
            invariant
                i <= self@.users.len(),
                key@ == username@,
                forall|j: int| 0 <= j < i ==> (#[trigger] self@.users[j]).username != username@,
            decreases self@.users.len() - i,
        {
            if self.users[i].username == key {
                return Some(i);
            }
            i = i + 1;
        }
        None
    }

    /// Index of the user row carrying this id, if any.
    fn find_index_by_id(&self, id: i32) -> (r: Option<usize>)
        ensures
            match r {
                Some(i) => i < self@.users.len() && self@.users[i as int].id == id as int,
                None => !self@.has_user_id(id as int),
            },
    {
        let mut i: usize = 0;
        while i < self.users.len()
            invariant
                i <= self@.users.len(),
                forall|j: int| 0 <= j < i ==> (#[trigger] self@.users[j]).id != id as int,
            decreases self@.users.len() - i,
        {
            if self.users[i].id == id {
                return Some(i);
            }
            i = i + 1;
        }
        None
    }

    /// Register a user: write the core row, the profile row if one was
    /// supplied, and one metadata row per entry, as one atomic unit. On any
    /// refusal nothing is written. Returns the freshly assigned id; a
    /// request whose username is already stored is refused with
    /// `DuplicateUsername`, and an exhausted id space with `QueryError`.
    pub fn create_user(&mut self, user: &CreateUserRequest) -> (result: Result<
        i32,
        DatabaseError,
    >)
        requires
            old(self)@.wf(),
        ensures
            final(self)@.wf(),
            match result {
                Ok(id) => {
                    &&& !old(self)@.has_username(user@.username)
                    &&& old(self)@.next_id < i32::MAX
                    &&& id as int == old(self)@.next_id
                    &&& final(self)@ == old(self)@.after_create(user@)
                },
                Err(DatabaseError::DuplicateUsername) => {
                    &&& old(self)@.has_username(user@.username)
                    &&& *final(self) == *old(self)
                },
                Err(DatabaseError::QueryError(m)) => {
                    &&& !old(self)@.has_username(user@.username)
                    &&& old(self)@.next_id == i32::MAX
                    &&& m@ == "user id space exhausted"@
                    &&& *final(self) == *old(self)
                },
                Err(_) => false,
            },
    {
        // The uniqueness constraint on usernames is the race-breaker: it is
        // checked against storage, not against anything the caller claims.
        if self.find_index_by_username(user.username.as_str()).is_some() {
            return Err(DatabaseError::DuplicateUsername);
        }
        if self.next_id == i32::MAX {
            return Err(DatabaseError::QueryError(String::from_str("user id space exhausted")));
        }
        let ghost pre = self@;
        let id = self.next_id;

        // users row
        let ghost users_pre = self@.users;
        self.users.push(
            UserRow {
                id,
                username: user.username.clone(),
                password: user.password.clone(),
                created_at: self.now,
                updated_at: self.now,
            },
        );
        proof {
            assert(self@.users =~= users_pre.push(user_row_of(user@, pre.next_id, pre.now)));
        }

        // user_profiles row, if the request carries a profile
        let ghost profiles_pre = self@.profiles;
        match &user.profile {
            Some(p) => {
                self.profiles.push(
                    ProfileRow {
                        user_id: id,
                        first_name: clone_opt_string(&p.first_name),
                        last_name: clone_opt_string(&p.last_name),
                        email: clone_opt_string(&p.email),
                    },
                );
                proof {
                    assert(user@.profile matches Some(pv) && self@.profiles =~= profiles_pre.push(
                        profile_row_of(pv, pre.next_id),
                    ));
                }
            },
            None => {},
        }

        // user_metadata rows, one per entry, in request order
        let ghost meta_pre = self@.metadata;
        let ghost users_now = self@.users;
        let ghost profiles_now = self@.profiles;
        let mut i: usize = 0;
        while i < user.metadata.len()
            invariant
                i <= user.metadata.len(),
                self@.users == users_now,
                self@.profiles == profiles_now,
                self@.next_id == pre.next_id,
                self@.now == pre.now,
                self@.metadata =~= meta_pre + metadata_rows_of(
                    user@.metadata.subrange(0, i as int),
                    pre.next_id,
                ),
                pre.next_id == id as int,
            decreases user.metadata.len() - i,
        {
            let ghost meta_loop = self@.metadata;
            let m = &user.metadata[i];
            self.metadata.push(
                MetadataRow {
                    user_id: id,
                    parent_property: clone_opt_string(&m.parent_property),
                    property: m.property.clone(),
                    value: clone_opt_string(&m.value),
                },
            );
            proof {
                assert(self@.metadata =~= meta_loop.push(
                    metadata_row_of(user@.metadata[i as int], pre.next_id),
                ));
                assert(metadata_rows_of(user@.metadata.subrange(0, i as int + 1), pre.next_id)
                    =~= metadata_rows_of(user@.metadata.subrange(0, i as int), pre.next_id).push(
                    metadata_row_of(user@.metadata[i as int], pre.next_id),
                ));
            }
            i = i + 1;
        }
        proof {
            assert(user@.metadata.subrange(0, user@.metadata.len() as int) =~= user@.metadata);
        }

        self.next_id = self.next_id + 1;
        proof {
            assert(self@ =~= pre.after_create(user@));
            lemma_after_create_wf(pre, user@);
        }
        Ok(id)
    }

    /// Look a user up by username for authentication: the stored id and
    /// password are returned and the caller compares the credential itself.
    pub fn authenticate_user(&self, username: &str) -> (result: Result<
        (i32, String),
        DatabaseError,
    >)
        requires
            self@.wf(),
        ensures
            match result {
                Ok(cred) => {
                    &&& self@.has_username(username@)
                    &&& cred.0 as int == self@.user_row_by_name(username@).id
                    &&& cred.1@ == self@.user_row_by_name(username@).password
                },
                Err(DatabaseError::UserNotFound) => !self@.has_username(username@),
                Err(_) => false,
            },
    {
        match self.find_index_by_username(username) {
            Some(i) => {
                let row = &self.users[i];
                proof {
                    let k = choose|k: int|
                        0 <= k < self@.users.len() && (#[trigger] self@.users[k]).username
                            == username@;
                    assert(k == i as int);
                }
                Ok((row.id, row.password.clone()))
            },
            None => Err(DatabaseError::UserNotFound),
        }
    }

    /// Read one user fully aggregated: the core row joined with its profile
    /// row (present only when at least one profile field is non-null), and
    /// all metadata rows of the user in storage order.
    pub fn find_user_by_id(&self, id: i32) -> (result: Result<User, DatabaseError>)
        requires
            self@.wf(),
        ensures
            match result {
                Ok(u) => self@.has_user_id(id as int) && u@ == self@.aggregated_user(id as int),
                Err(DatabaseError::UserNotFound) => !self@.has_user_id(id as int),
                Err(_) => false,
            },
    {
        let idx = match self.find_index_by_id(id) {
            Some(i) => i,
            None => {
                return Err(DatabaseError::UserNotFound);
            },
        };
        proof {
            let k = choose|k: int|
                0 <= k < self@.users.len() && (#[trigger] self@.users[k]).id == id as int;
            assert(k == idx as int);
            assert(self@.user_row(id as int) == self@.users[idx as int]);
        }

        // Join with the profile row; the profile is part of the result only
        // when at least one of its fields is non-null.
        let profile: Option<UserProfile> = match self.find_profile_index(id) {
            Some(pi) => {
                proof {
                    let k = choose|k: int|
                        0 <= k < self@.profiles.len() && (#[trigger] self@.profiles[k]).user_id
                            == id as int;
                    assert(k == pi as int);
                    assert(self@.profile_row_for(id as int) == Some(self@.profiles[pi as int]));
                }
                let p = &self.profiles[pi];
                if p.first_name.is_some() || p.last_name.is_some() || p.email.is_some() {
                    Some(
                        UserProfile {
                            first_name: clone_opt_string(&p.first_name),
                            last_name: clone_opt_string(&p.last_name),
                            email: clone_opt_string(&p.email),
                        },
                    )
                } else {
                    None
                }
            },
            None => {
                proof {
                    assert(self@.profile_row_for(id as int) is None);
                }
                None
            },
        };

        // Gather the metadata rows of this user, in storage order.
        let mut entries: Vec<UserMetadata> = Vec::new();
        let mut i: usize = 0;
        while i < self.metadata.len()
            invariant
                i <= self@.metadata.len(),
                entries.deep_view() =~= metadata_entries_for(
                    self@.metadata.subrange(0, i as int),
                    id as int,
                ),
            decreases self@.metadata.len() - i,
        {
            let ghost entries_pre = entries.deep_view();
            let m = &self.metadata[i];
            if m.user_id == id {
                entries.push(
                    UserMetadata {
                        parent_property: clone_opt_string(&m.parent_property),
                        property: m.property.clone(),
                        value: clone_opt_string(&m.value),
                    },
                );
                proof {
                    assert(entries.deep_view() =~= entries_pre.push(
                        entry_of_row(self@.metadata[i as int]),
                    ));
                }
            }
            proof {
                let sub = self@.metadata.subrange(0, i as int + 1);
                assert(sub.drop_last() =~= self@.metadata.subrange(0, i as int));
                assert(sub.last() == self@.metadata[i as int]);
            }
            i = i + 1;
        }
        proof {
            assert(self@.metadata.subrange(0, self@.metadata.len() as int) =~= self@.metadata);
        }

        let row = &self.users[idx];
        let u = User {
            id: row.id,
            username: row.username.clone(),
            password: row.password.clone(),
            created_at: row.created_at,
            updated_at: row.updated_at,
            profile,
            metadata: entries,
        };
        proof {
            assert(u@ =~= self@.aggregated_user(id as int));
        }
        Ok(u)
    }

    /// Index of the profile row owned by this user, if any.
    fn find_profile_index(&self, user_id: i32) -> (r: Option<usize>)
        ensures
            match r {
                Some(i) => i < self@.profiles.len() && self@.profiles[i as int].user_id
                    == user_id as int,
                None => forall|j: int|
                    0 <= j < self@.profiles.len() ==> (#[trigger] self@.profiles[j]).user_id
                        != user_id as int,
            },
    {
        let mut i: usize = 0;
        while i < self.profiles.len()
            invariant
                i <= self@.profiles.len(),
                forall|j: int| 0 <= j < i ==> (#[trigger] self@.profiles[j]).user_id != user_id as int,
            decreases self@.profiles.len() - i,
        {
            if self.profiles[i].user_id == user_id {
                return Some(i);
            }
            i = i + 1;
        }
        None
    }
}

} // verus!
