//! Community spaces: images, requests, links and the labels of roles, claims,
//! moderation and activity.

use vstd::prelude::*;
use crate::http::{prefixed, ApiError};
use crate::reader_view::{join_strings, join_with};
use crate::text::{chars_of, string_from_chars};

verus! {

/// The PNG signature.
pub open spec fn png_signature() -> Seq<u8> {
    seq![0x89u8, 0x50u8, 0x4eu8, 0x47u8, 0x0du8, 0x0au8, 0x1au8, 0x0au8]
}

/// The JPEG start-of-image marker.
pub open spec fn jpeg_signature() -> Seq<u8> {
    seq![0xffu8, 0xd8u8, 0xffu8]
}

pub open spec fn bytes_start_with(bytes: Seq<u8>, prefix: Seq<u8>) -> bool {
    prefix.len() <= bytes.len() && bytes.take(prefix.len() as int) == prefix
}

fn starts_with_bytes(bytes: &[u8], prefix: &[u8]) -> (r: bool)
    ensures
        r == bytes_start_with(bytes@, prefix@),
{
    if prefix.len() > bytes.len() {
        return false;
    }
    let mut i: usize = 0;
    while i < prefix.len()
        invariant
            i <= prefix@.len() <= bytes@.len(),
            forall|k: int| 0 <= k < i ==> bytes@[k] == prefix@[k],
        decreases prefix.len() - i,
    {
        if bytes[i] != prefix[i] {
            return false;
        }
        i += 1;
    }
    assert(bytes@.take(prefix@.len() as int) =~= prefix@);
    true
}

pub open spec fn spec_image_media_type(bytes: Seq<u8>) -> Option<Seq<char>> {
    if bytes_start_with(bytes, png_signature()) {
        Some("image/png"@)
    } else if bytes_start_with(bytes, jpeg_signature()) {
        Some("image/jpeg"@)
    } else {
        None
    }
}

/// The media type of an image by its signature: PNG or JPEG.
pub fn image_media_type(bytes: &[u8]) -> (r: Option<&'static str>)
    ensures
        r matches Some(t) ==> spec_image_media_type(bytes@) == Some(t@),
        r is None ==> spec_image_media_type(bytes@) is None,
{
    let png: [u8; 8] = [0x89u8, 0x50u8, 0x4eu8, 0x47u8, 0x0du8, 0x0au8, 0x1au8, 0x0au8];
    let jpeg: [u8; 3] = [0xffu8, 0xd8u8, 0xffu8];
    proof {
        assert(png@ =~= png_signature());
        assert(jpeg@ =~= jpeg_signature());
    }
    if starts_with_bytes(bytes, &png) {
        Some("image/png")
    } else if starts_with_bytes(bytes, &jpeg) {
        Some("image/jpeg")
    } else {
        None
    }
}

/// The check of an image before it replaces a space's avatar or cover: it must
/// be non-empty, no larger than the limit, and a PNG or a JPEG. `Ok` holds the
/// media type to send.
pub fn check_space_image(bytes: &[u8], max_bytes: usize) -> (r: Result<&'static str, ApiError>)
    ensures
        (bytes@.len() == 0 || bytes@.len() > max_bytes) ==> (r matches Err(ApiError::Message(m))
            && m@ == "Изображение пустое или превышает лимит 5 МБ."@),
        !(bytes@.len() == 0 || bytes@.len() > max_bytes) && spec_image_media_type(bytes@) is None
            ==> (r matches Err(ApiError::Message(m)) && m@ == "Поддерживаются только корректные PNG и JPEG."@),
        !(bytes@.len() == 0 || bytes@.len() > max_bytes) && spec_image_media_type(bytes@) is Some
            ==> (r matches Ok(t) && spec_image_media_type(bytes@) == Some(t@)),
{
    if bytes.len() == 0 || bytes.len() > max_bytes {
        return Err(ApiError::Message("Изображение пустое или превышает лимит 5 МБ.".to_string()));
    }
    match image_media_type(bytes) {
        Some(t) => Ok(t),
        None => Err(ApiError::Message("Поддерживаются только корректные PNG и JPEG.".to_string())),
    }
}

/// An HTTP method of a community mutation.
#[derive(Clone, Copy, Debug, PartialEq, Eq, Structural)]
pub enum MutationMethod {
    Post,
    Patch,
    Delete,
}

fn same_str(a: &str, b: &str) -> (r: bool)
    ensures
        r == (a@ == b@),
{
    let x = chars_of(a);
    let y = chars_of(b);
    crate::tags::chars_equal(&x, &y)
}

/// The method of a mutation with a JSON body: POST, PATCH or DELETE.
pub fn json_mutation_method(method: &str) -> (r: Result<MutationMethod, ApiError>)
    ensures
        method@ == "POST"@ ==> r == Ok::<MutationMethod, ApiError>(MutationMethod::Post),
        method@ == "PATCH"@ ==> r == Ok::<MutationMethod, ApiError>(MutationMethod::Patch),
        method@ == "DELETE"@ ==> r == Ok::<MutationMethod, ApiError>(MutationMethod::Delete),
        method@ != "POST"@ && method@ != "PATCH"@ && method@ != "DELETE"@ ==> (r matches Err(ApiError::Message(m))
            && m@ == "Неподдерживаемая операция."@),
{
    proof {
        reveal_strlit("POST");
        reveal_strlit("PATCH");
        reveal_strlit("DELETE");
        assert("POST"@.len() == 4 && "PATCH"@.len() == 5 && "DELETE"@.len() == 6);
    }
    if same_str(method, "POST") {
        Ok(MutationMethod::Post)
    } else if same_str(method, "PATCH") {
        Ok(MutationMethod::Patch)
    } else if same_str(method, "DELETE") {
        Ok(MutationMethod::Delete)
    } else {
        Err(ApiError::Message("Неподдерживаемая операция.".to_string()))
    }
}

/// The method of a mutation without a body: POST or DELETE.
pub fn empty_mutation_method(method: &str) -> (r: Result<MutationMethod, ApiError>)
    ensures
        method@ == "POST"@ ==> r == Ok::<MutationMethod, ApiError>(MutationMethod::Post),
        method@ == "DELETE"@ ==> r == Ok::<MutationMethod, ApiError>(MutationMethod::Delete),
        method@ != "POST"@ && method@ != "DELETE"@ ==> (r matches Err(ApiError::Message(m))
            && m@ == "Неподдерживаемая операция."@),
{
    proof {
        reveal_strlit("POST");
        reveal_strlit("DELETE");
        assert("POST"@.len() == 4 && "DELETE"@.len() == 6);
    }
    if same_str(method, "POST") {
        Ok(MutationMethod::Post)
    } else if same_str(method, "DELETE") {
        Ok(MutationMethod::Delete)
    } else {
        Err(ApiError::Message("Неподдерживаемая операция.".to_string()))
    }
}

/// The link that joins a space with an access token, on the page's origin when known.
pub fn join_url(origin: Option<&str>, token: &str) -> (r: String)
    ensures
        origin matches Some(o) ==> r@ == o@ + "/#join/"@ + token@,
        origin is None ==> r@ == "#join/"@ + token@,
{
    match origin {
        Some(o) => {
            let head = prefixed(o, "/#join/");
            prefixed(head.as_str(), token)
        },
        None => prefixed("#join/", token),
    }
}

/// The query suffix that asks for the page after a cursor: `sep`, `after=`, the cursor.
pub fn cursor_query(sep: &str, after: Option<&str>) -> (r: String)
    ensures
        after matches Some(c) ==> r@ == sep@ + "after="@ + c@,
        after is None ==> r@.len() == 0,
{
    match after {
        Some(c) => {
            let head = prefixed(sep, "after=");
            prefixed(head.as_str(), c)
        },
        None => String::new(),
    }
}

/// Role of a member in a space.
#[derive(Clone, Copy, Debug, PartialEq, Eq, Structural)]
pub enum CommunityRole {
    Owner,
    Admin,
    Member,
}

pub fn role_label(role: CommunityRole) -> (r: &'static str)
    ensures
        r@ == match role {
            CommunityRole::Owner => "Владелец"@,
            CommunityRole::Admin => "Администратор"@,
            CommunityRole::Member => "Участник"@,
        },
{
    match role {
        CommunityRole::Owner => "Владелец",
        CommunityRole::Admin => "Администратор",
        CommunityRole::Member => "Участник",
    }
}

/// How a reader's own copy of a shared material was matched.
#[derive(Clone, Copy, Debug, PartialEq, Eq, Structural)]
pub enum ClaimStatus {
    Matched,
    Pending,
    ManualReview,
    Rejected,
}

pub fn claim_status_label(status: Option<ClaimStatus>) -> (r: &'static str)
    ensures
        r@ == match status {
            Some(ClaimStatus::Matched) => "Есть ваша копия"@,
            Some(ClaimStatus::Pending) => "Ищем совпадение"@,
            Some(ClaimStatus::ManualReview) => "Нужно подтвердить"@,
            Some(ClaimStatus::Rejected) => "Копия не совпала"@,
            None => "Импортируйте свою копию"@,
        },
{
    match status {
        Some(ClaimStatus::Matched) => "Есть ваша копия",
        Some(ClaimStatus::Pending) => "Ищем совпадение",
        Some(ClaimStatus::ManualReview) => "Нужно подтвердить",
        Some(ClaimStatus::Rejected) => "Копия не совпала",
        None => "Импортируйте свою копию",
    }
}

/// A source format of a shared material.
#[derive(Clone, Copy, Debug, PartialEq, Eq, Structural)]
pub enum SourceFormat {
    Epub,
    Pdf,
    WebPage,
    Telegram,
    Markdown,
    Lum,
}

pub open spec fn spec_format_name(f: SourceFormat) -> Seq<char> {
    match f {
        SourceFormat::Epub => "EPUB"@,
        SourceFormat::Pdf => "PDF"@,
        SourceFormat::WebPage => "Web"@,
        SourceFormat::Telegram => "Telegram"@,
        SourceFormat::Markdown => "Markdown"@,
        SourceFormat::Lum => "LUM"@,
    }
}

fn format_name(f: SourceFormat) -> (r: &'static str)
    ensures
        r@ == spec_format_name(f),
{
    match f {
        SourceFormat::Epub => "EPUB",
        SourceFormat::Pdf => "PDF",
        SourceFormat::WebPage => "Web",
        SourceFormat::Telegram => "Telegram",
        SourceFormat::Markdown => "Markdown",
        SourceFormat::Lum => "LUM",
    }
}

/// The formats of a shared material, joined by ", ".
pub fn source_formats_label(formats: &Vec<SourceFormat>) -> (r: String)
    ensures
        r@ == join_with(formats@.map_values(|f: SourceFormat| spec_format_name(f)), ", "@),
{
    let mut names: Vec<String> = Vec::new();
    let mut i: usize = 0;
    while i < formats.len()
        invariant
            i <= formats@.len(),
            names@.len() == i,
            forall|k: int| 0 <= k < i ==> (#[trigger] names@[k])@ == spec_format_name(formats@[k]),
        decreases formats.len() - i,
    {
        names.push(format_name(formats[i]).to_string());
        i += 1;
    }
    proof {
        assert(names@.map_values(|p: String| p@) =~= formats@.map_values(|f: SourceFormat| spec_format_name(f)));
    }
    join_strings(&names, ", ")
}

/// State of an access link.
#[derive(Clone, Copy, Debug, PartialEq, Eq, Structural)]
pub enum AccessLinkStatus {
    Active,
    Revoked,
}

pub fn link_status_label(status: AccessLinkStatus) -> (r: &'static str)
    ensures
        r@ == match status {
            AccessLinkStatus::Active => "Активна"@,
            AccessLinkStatus::Revoked => "Отозвана"@,
        },
{
    match status {
        AccessLinkStatus::Active => "Активна",
        AccessLinkStatus::Revoked => "Отозвана",
    }
}

/// Moderation state of a post.
#[derive(Clone, Copy, Debug, PartialEq, Eq, Structural)]
pub enum SocialContentState {
    Visible,
    Hidden,
    Deleted,
}

pub fn social_state_label(state: SocialContentState) -> (r: &'static str)
    ensures
        r@ == match state {
            SocialContentState::Visible => "Опубликовано"@,
            SocialContentState::Hidden => "Скрыто модератором"@,
            SocialContentState::Deleted => "Удалено"@,
        },
{
    match state {
        SocialContentState::Visible => "Опубликовано",
        SocialContentState::Hidden => "Скрыто модератором",
        SocialContentState::Deleted => "Удалено",
    }
}

pub fn social_state_placeholder(state: SocialContentState) -> (r: &'static str)
    ensures
        r@ == match state {
            SocialContentState::Visible => ""@,
            SocialContentState::Hidden => "Содержимое скрыто модератором."@,
            SocialContentState::Deleted => "Комментарий удалён."@,
        },
{
    match state {
        SocialContentState::Visible => "",
        SocialContentState::Hidden => "Содержимое скрыто модератором.",
        SocialContentState::Deleted => "Комментарий удалён.",
    }
}

/// What happened in a space.
#[derive(Clone, Copy, Debug, PartialEq, Eq, Structural)]
pub enum ActivityKind {
    SpaceCreated,
    MemberJoined,
    MemberLeft,
    MemberRemoved,
    MaterialAdded,
    DiscussionStarted,
    ContentModerated,
    ChatMessageCreated,
}

pub fn activity_label(kind: ActivityKind) -> (r: &'static str)
    ensures
        r@ == match kind {
            ActivityKind::SpaceCreated => "создал(а) пространство"@,
            ActivityKind::MemberJoined => "вступил(а) в пространство"@,
            ActivityKind::MemberLeft => "вышел/вышла из пространства"@,
            ActivityKind::MemberRemoved => "удалил(а) участника"@,
            ActivityKind::MaterialAdded => "добавил(а) материал"@,
            ActivityKind::DiscussionStarted => "начал(а) обсуждение материала"@,
            ActivityKind::ContentModerated => "изменил(а) видимость публикации"@,
            ActivityKind::ChatMessageCreated => "написал(а) в чат"@,
        },
{
    match kind {
        ActivityKind::SpaceCreated => "создал(а) пространство",
        ActivityKind::MemberJoined => "вступил(а) в пространство",
        ActivityKind::MemberLeft => "вышел/вышла из пространства",
        ActivityKind::MemberRemoved => "удалил(а) участника",
        ActivityKind::MaterialAdded => "добавил(а) материал",
        ActivityKind::DiscussionStarted => "начал(а) обсуждение материала",
        ActivityKind::ContentModerated => "изменил(а) видимость публикации",
        ActivityKind::ChatMessageCreated => "написал(а) в чат",
    }
}

/// Whether a visibility refresh still belongs to the latest poll: a refresh
/// scheduled with ticket `expected` runs only while that ticket is current.
pub fn refresh_is_current(current_ticket: u64, expected: u64) -> (r: bool)
    ensures
        r == (current_ticket == expected),
{
    current_ticket == expected
}

/// What the current member may do in a space.
#[derive(Clone, Copy, Debug, PartialEq, Eq, Structural)]
pub struct SpacePermissions {
    pub can_edit_space: bool,
    pub can_manage_links: bool,
    pub can_assign_admin: bool,
    pub can_remove_members: bool,
}

/// A member of a space as the member list shows it.
#[derive(Clone, Copy, Debug, PartialEq, Eq, Structural)]
pub struct MemberView {
    pub user_id: u128,
    pub role: CommunityRole,
    /// The membership is active (not left or removed).
    pub active: bool,
}

/// The actions the member list offers on one member.
#[derive(Clone, Copy, Debug, PartialEq, Eq, Structural)]
pub struct MemberActions {
    /// The role that the role button gives, when the button is offered.
    pub role_change: Option<CommunityRole>,
    /// Whether removing the member is offered.
    pub can_remove: bool,
}

/// The role a role toggle gives: an administrator becomes a member, anyone
/// else an administrator.
pub open spec fn toggled_role(role: CommunityRole) -> CommunityRole {
    if role == CommunityRole::Admin { CommunityRole::Member } else { CommunityRole::Admin }
}

/// The actions on a member of the list, seen by `current_user` with `permissions`:
/// the role toggle for another active member who is not the owner, when
/// administrators may be assigned; removal of another active plain member,
/// when members may be removed.
pub fn member_actions(permissions: SpacePermissions, current_user: u128, member: MemberView) -> (r: MemberActions)
    ensures
        r.role_change == (if permissions.can_assign_admin && member.user_id != current_user && member.active
            && member.role != CommunityRole::Owner {
            Some(toggled_role(member.role))
        } else {
            None::<CommunityRole>
        }),
        r.can_remove == (permissions.can_remove_members && member.user_id != current_user
            && member.role == CommunityRole::Member && member.active),
{
    let role_change = if permissions.can_assign_admin && member.user_id != current_user && member.active
        && member.role != CommunityRole::Owner {
        Some(if member.role == CommunityRole::Admin { CommunityRole::Member } else { CommunityRole::Admin })
    } else {
        None
    };
    let can_remove = permissions.can_remove_members && member.user_id != current_user
        && member.role == CommunityRole::Member && member.active;
    MemberActions { role_change, can_remove }
}

/// The text of the role button for a member with the role.
pub fn role_change_label(role: CommunityRole) -> (r: &'static str)
    ensures
        r@ == (if role == CommunityRole::Admin { "Сделать участником"@ } else { "Назначить администратором"@ }),
{
    if role == CommunityRole::Admin { "Сделать участником" } else { "Назначить администратором" }
}

/// Leaving a space is offered to everyone but its owner.
pub fn can_leave(role: CommunityRole) -> (r: bool)
    ensures
        r == (role != CommunityRole::Owner),
{
    role != CommunityRole::Owner
}

/// The owner and administrators moderate posts.
pub fn can_moderate(role: CommunityRole) -> (r: bool)
    ensures
        r == (role == CommunityRole::Owner || role == CommunityRole::Admin),
{
    role == CommunityRole::Owner || role == CommunityRole::Admin
}

/// Reissuing and revoking are offered for an active access link only.
pub fn link_actions_offered(status: AccessLinkStatus) -> (r: bool)
    ensures
        r == (status == AccessLinkStatus::Active),
{
    status == AccessLinkStatus::Active
}

} // verus!
