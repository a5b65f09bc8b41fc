use vstd::prelude::*;

verus! {

/// The hexadecimal digit of `id` that stands at place `place`, counted from
/// the most significant digit, in lower case.
pub open spec fn hex_digit(id: u128, place: int) -> char {
    "0123456789abcdef"@[((id >> ((4 * (31 - place)) as u128)) & 0xf) as int]
}

/// The text of an identifier in hyphenated form: its 32 lower-case hexadecimal
/// digits in groups of 8, 4, 4, 4 and 12, with a hyphen between the groups.
pub open spec fn hyphenated(id: u128) -> Seq<char> {
    Seq::new(
        36,
        |at: int|
            if at == 8 || at == 13 || at == 18 || at == 23 {
                '-'
            } else if at < 8 {
                hex_digit(id, at)
            } else if at < 13 {
                hex_digit(id, at - 1)
            } else if at < 18 {
                hex_digit(id, at - 2)
            } else if at < 23 {
                hex_digit(id, at - 3)
            } else {
                hex_digit(id, at - 4)
            },
    )
}

/// What can go wrong when a reference or an identifier is used.
#[derive(Clone, Copy, Debug, PartialEq, Eq, Structural)]
pub enum ErrorKind {
    /// An actor is already registered under this identifier.
    ActorAlreadyExists(u128),
    /// The cell behind a reference no longer exists.
    ActorDestroyed,
    /// No actor is registered under this identifier.
    InvalidActor(u128),
}

/// `uuid::Uuid::from_u128` followed by the `Display` of `uuid::Uuid`: the
/// identifier as hyphenated lower-case text.
#[verifier::external_body]
fn id_text(id: u128) -> (text: String)
    ensures
        text@ == hyphenated(id),
{
    uuid::Uuid::from_u128(id).to_string()
}

/// Three pieces of text joined in order.
fn join3(head: &str, body: &str, tail: &str) -> (text: String)
    ensures
        text@ == head@ + body@ + tail@,
{
    let mut text = head.to_owned();
    text.append(body);
    text.append(tail);
    text
}

impl ErrorKind {
    /// The short description of the kind, without the identifier.
    pub open spec fn description_spec(self) -> Seq<char> {
        match self {
            ErrorKind::ActorAlreadyExists(_) => "actor already exists"@,
            ErrorKind::ActorDestroyed => "ActorDestroyed"@,
            ErrorKind::InvalidActor(_) => "invalid actor"@,
        }
    }

    /// The full message, with the identifier where the kind has one.
    pub open spec fn message_spec(self) -> Seq<char> {
        match self {
            ErrorKind::ActorAlreadyExists(id) => "actor '"@ + hyphenated(id) + "' already exists"@,
            ErrorKind::ActorDestroyed => "ActorDestroyed"@,
            ErrorKind::InvalidActor(id) => "invalid actor: '"@ + hyphenated(id) + "'"@,
        }
    }

    pub fn description(&self) -> (text: String)
        ensures
            text@ == self.description_spec(),
    {
        match self {
            ErrorKind::ActorAlreadyExists(_) => "actor already exists".to_owned(),
            ErrorKind::ActorDestroyed => "ActorDestroyed".to_owned(),
            ErrorKind::InvalidActor(_) => "invalid actor".to_owned(),
        }
    }

    pub fn message(&self) -> (text: String)
        ensures
            text@ == self.message_spec(),
    {
        match self {
            ErrorKind::ActorAlreadyExists(id) => {
                let body = id_text(*id);
                join3("actor '", body.as_str(), "' already exists")
            },
            ErrorKind::ActorDestroyed => "ActorDestroyed".to_owned(),
            ErrorKind::InvalidActor(id) => {
                let body = id_text(*id);
                join3("invalid actor: '", body.as_str(), "'")
            },
        }
    }
}

} // verus!
