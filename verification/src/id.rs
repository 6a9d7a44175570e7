//! The identifiers the whole crew shares. Roles and channels carry names;
//! messages and tasks carry a random UUID, held as its 128-bit number.
use vstd::arithmetic::power::pow;
use vstd::prelude::*;

verus! {

/// A role's stable identifier, such as `commander`, `backend`, or `qa`.
#[derive(Debug, PartialEq, Eq, Hash, PartialOrd, Ord)]
pub struct RoleId(String);

impl View for RoleId {
    type V = Seq<char>;

    closed spec fn view(&self) -> Seq<char> {
        self.0@
    }
}

impl Clone for RoleId {
    fn clone(&self) -> (r: Self)
        ensures
            r == *self,
    {
        RoleId(self.0.clone())
    }
}

impl RoleId {
    /// The role named `value`.
    pub fn new(value: &str) -> (r: Self)
        ensures
            r@ == value@,
    {
        RoleId(value.to_owned())
    }

    /// The identifier as a string slice.
    pub fn as_str(&self) -> (r: &str)
        ensures
            r@ == self@,
    {
        self.0.as_str()
    }

    /// The owned inner string.
    pub fn into_inner(self) -> (r: String)
        ensures
            r@ == self@,
    {
        self.0
    }

    /// Whether two identifiers name the same role.
    pub fn same(&self, other: &RoleId) -> (r: bool)
        ensures
            r == (self@ == other@),
    {
        self.0 == other.0
    }
}

/// A channel's identifier, such as `all-units`, `@backend`, or
/// `frontend+backend`.
#[derive(Debug, PartialEq, Eq, Hash, PartialOrd, Ord)]
pub struct ChannelId(String);

impl View for ChannelId {
    type V = Seq<char>;

    closed spec fn view(&self) -> Seq<char> {
        self.0@
    }
}

impl Clone for ChannelId {
    fn clone(&self) -> (r: Self)
        ensures
            r == *self,
    {
        ChannelId(self.0.clone())
    }
}

impl ChannelId {
    /// The channel named `value`.
    pub fn new(value: &str) -> (r: Self)
        ensures
            r@ == value@,
    {
        ChannelId(value.to_owned())
    }

    /// The identifier as a string slice.
    pub fn as_str(&self) -> (r: &str)
        ensures
            r@ == self@,
    {
        self.0.as_str()
    }

    /// The owned inner string.
    pub fn into_inner(self) -> (r: String)
        ensures
            r@ == self@,
    {
        self.0
    }

    /// Whether two identifiers name the same channel.
    pub fn same(&self, other: &ChannelId) -> (r: bool)
        ensures
            r == (self@ == other@),
    {
        self.0 == other.0
    }
}

/// The `k`-th of the 32 hexadecimal digits of `u`, most significant first.
pub open spec fn nibble(u: u128, k: int) -> int {
    (u as int / pow(16, (31 - k) as nat)) % 16
}

/// The lower-case hexadecimal digit for `d`.
pub open spec fn hex_digit(d: int) -> char {
    if d < 10 {
        (48 + d) as char
    } else {
        (87 + d) as char
    }
}

/// How many hyphens stand before position `i` of a UUID's text.
pub open spec fn hyphens_before(i: int) -> int {
    (if i > 8 { 1int } else { 0 }) + (if i > 13 { 1int } else { 0 }) + (if i > 18 { 1int } else { 0 })
        + (if i > 23 { 1int } else { 0 })
}

/// The canonical text of the UUID with number `u`: its hexadecimal digits in
/// lower case, in hyphenated groups of 8, 4, 4, 4 and 12.
pub open spec fn uuid_text(u: u128) -> Seq<char> {
    Seq::new(
        36,
        |i: int|
            if i == 8 || i == 13 || i == 18 || i == 23 {
                '-'
            } else {
                hex_digit(nibble(u, i - hyphens_before(i)))
            },
    )
}

/// The number of the UUID that a text writes, in any of the forms that
/// `uuid::Uuid::parse_str` reads.
pub uninterp spec fn uuid_parse(s: Seq<char>) -> Option<u128>;

/// `uuid::Uuid::new_v4`: a random UUID. Every outcome carries the version digit
/// 4 and the RFC 4122 variant bits; nothing else is known of it.
#[verifier::external_body]
fn fresh_uuid() -> (r: u128)
    ensures
        nibble(r, 12) == 4,
        8 <= nibble(r, 16) < 12,
{
    uuid::Uuid::new_v4().as_u128()
}

/// `uuid::Uuid`'s `Display`: the canonical text, which `parse_str` reads back.
#[verifier::external_body]
fn format_uuid(u: u128) -> (r: String)
    ensures
        r@ == uuid_text(u),
        uuid_parse(r@) == Some(u),
{
    uuid::Uuid::from_u128(u).to_string()
}

/// `uuid::Uuid::parse_str`: the UUID a text writes, or nothing where it writes
/// none. What it accepts is named, not spelled out.
#[verifier::external_body]
fn parse_uuid(s: &str) -> (r: Option<u128>)
    ensures
        r == uuid_parse(s@),
{
    uuid::Uuid::parse_str(s).ok().map(|id| id.as_u128())
}

/// Why a text is not an identifier.
#[derive(Debug, Clone, Copy, PartialEq, Eq, Structural)]
pub enum IdError {
    /// The text is not a UUID.
    NotAUuid,
}

/// A message's globally unique identifier, referenced when an `answer` replies
/// to a `question`.
#[derive(Debug, Clone, Copy, PartialEq, Eq, Hash, PartialOrd, Ord, Structural)]
pub struct MessageId(pub u128);

/// A task's globally unique identifier, correlating the events worked under it.
#[derive(Debug, Clone, Copy, PartialEq, Eq, Hash, PartialOrd, Ord, Structural)]
pub struct TaskId(pub u128);

/// Whether `u` is marked as a random UUID: version 4, RFC 4122 variant.
pub open spec fn random_uuid(u: u128) -> bool {
    nibble(u, 12) == 4 && 8 <= nibble(u, 16) < 12
}

impl MessageId {
    /// Mints a fresh, random id.
    pub fn new() -> (r: Self)
        ensures
            random_uuid(r.0),
    {
        MessageId(fresh_uuid())
    }

    /// The number of the UUID.
    pub fn as_uuid(self) -> (r: u128)
        ensures
            r == self.0,
    {
        self.0
    }

    /// The canonical UUID text, which [`MessageId::parse`] reads back.
    pub fn to_string(&self) -> (r: String)
        ensures
            r@ == uuid_text(self.0),
            uuid_parse(r@) == Some(self.0),
    {
        format_uuid(self.0)
    }

    /// The id that `value` writes as a UUID.
    pub fn parse(value: &str) -> (r: Result<Self, IdError>)
        ensures
            match uuid_parse(value@) {
                Some(u) => r == Ok::<MessageId, IdError>(MessageId(u)),
                None => r == Err::<MessageId, IdError>(IdError::NotAUuid),
            },
    {
        match parse_uuid(value) {
            Some(u) => Ok(MessageId(u)),
            None => Err(IdError::NotAUuid),
        }
    }
}

impl Default for MessageId {
    /// Mints a fresh, random id: there is no meaningful fixed default.
    fn default() -> (r: Self)
        ensures
            random_uuid(r.0),
    {
        MessageId::new()
    }
}

impl std::str::FromStr for MessageId {
    type Err = IdError;

    fn from_str(value: &str) -> Result<Self, IdError> {
        MessageId::parse(value)
    }
}

impl TaskId {
    /// Mints a fresh, random id.
    pub fn new() -> (r: Self)
        ensures
            random_uuid(r.0),
    {
        TaskId(fresh_uuid())
    }

    /// The number of the UUID.
    pub fn as_uuid(self) -> (r: u128)
        ensures
            r == self.0,
    {
        self.0
    }

    /// The canonical UUID text, which [`TaskId::parse`] reads back.
    pub fn to_string(&self) -> (r: String)
        ensures
            r@ == uuid_text(self.0),
            uuid_parse(r@) == Some(self.0),
    {
        format_uuid(self.0)
    }

    /// The id that `value` writes as a UUID.
    pub fn parse(value: &str) -> (r: Result<Self, IdError>)
        ensures
            match uuid_parse(value@) {
                Some(u) => r == Ok::<TaskId, IdError>(TaskId(u)),
                None => r == Err::<TaskId, IdError>(IdError::NotAUuid),
            },
    {
        match parse_uuid(value) {
            Some(u) => Ok(TaskId(u)),
            None => Err(IdError::NotAUuid),
        }
    }
}

impl Default for TaskId {
    /// Mints a fresh, random id: there is no meaningful fixed default.
    fn default() -> (r: Self)
        ensures
            random_uuid(r.0),
    {
        TaskId::new()
    }
}

impl std::str::FromStr for TaskId {
    type Err = IdError;

    fn from_str(value: &str) -> Result<Self, IdError> {
        TaskId::parse(value)
    }
}

/// Who emitted an event: a role-scoped agent, or the General (the human).
#[derive(Debug, PartialEq, Eq, Hash)]
pub enum Sender {
    /// A role-scoped agent (`commander`, `backend`, ...).
    Role(RoleId),
    /// The General: the human directing the crew.
    General,
}

impl Sender {
    /// The name of the sending role, if a role sent it.
    pub open spec fn role(self) -> Option<Seq<char>> {
        match self {
            Sender::Role(role) => Some(role@),
            Sender::General => None,
        }
    }

    /// Whether `role` is the sender.
    pub fn is_role(&self, role: &RoleId) -> (r: bool)
        ensures
            r == (self.role() == Some(role@)),
    {
        match self {
            Sender::Role(sender) => sender.same(role),
            Sender::General => false,
        }
    }
}

impl Clone for Sender {
    fn clone(&self) -> (r: Self)
        ensures
            r == *self,
    {
        match self {
            Sender::Role(role) => Sender::Role(role.clone()),
            Sender::General => Sender::General,
        }
    }
}

/// An id's text reads back to the id, so no two ids share a text.
pub proof fn an_id_reads_back(
    message: MessageId,
    task: TaskId,
    message_text: String,
    task_text: String,
    s: &str,
    message_read: Result<MessageId, IdError>,
    task_read: Result<TaskId, IdError>,
)
    requires
        call_ensures(MessageId::to_string, (&message,), message_text),
        call_ensures(TaskId::to_string, (&task,), task_text),
        call_ensures(MessageId::parse, (s,), message_read),
        call_ensures(TaskId::parse, (s,), task_read),
    ensures
        s@ == message_text@ ==> message_read == Ok::<MessageId, IdError>(message),
        s@ == task_text@ ==> task_read == Ok::<TaskId, IdError>(task),
        message_text@ == task_text@ ==> message.0 == task.0,
{
}

/// A sender is a role exactly where that role sent it; the General is none.
pub proof fn the_general_is_no_role(sender: Sender, role: RoleId, r: bool)
    requires
        call_ensures(Sender::is_role, (&sender, &role), r),
    ensures
        sender == Sender::General ==> !r,
        sender matches Sender::Role(by) ==> (r <==> by@ == role@),
{
}

} // verus!
