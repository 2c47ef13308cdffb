//! The records the core reads and writes.

use vstd::prelude::*;

verus! {

/// An identity record.
#[derive(Clone)]
pub struct User {
    pub id: i32,
    pub username: String,
    pub password: Vec<u8>,
    pub privilege: i32,
}

/// The mathematical content of a [`User`].
pub struct UserView {
    pub id: int,
    pub username: Seq<char>,
    pub password: Seq<u8>,
    pub privilege: int,
}

impl View for User {
    type V = UserView;

    open spec fn view(&self) -> UserView {
        UserView {
            id: self.id as int,
            username: self.username@,
            password: self.password@,
            privilege: self.privilege as int,
        }
    }
}

/// The privilege tier of a user.
#[derive(Clone, Copy, Debug, PartialEq, Eq, Structural)]
pub enum Privilege {
    User,
    Administrator,
}

impl Privilege {
    /// The number under which a tier is stored in a user record.
    pub open spec fn spec_code(self) -> int {
        match self {
            Privilege::User => 0,
            Privilege::Administrator => 1,
        }
    }

    /// The tier that a stored number stands for. Only the number of the
    /// administrator tier grants it; every other number is an ordinary user.
    pub open spec fn spec_of_code(code: int) -> Privilege {
        if code == 1 {
            Privilege::Administrator
        } else {
            Privilege::User
        }
    }

    /// The number under which this tier is stored in a user record.
    pub fn code(self) -> (code: i32)
        ensures
            code == self.spec_code(),
    {
        match self {
            Privilege::User => 0,
            Privilege::Administrator => 1,
        }
    }

    /// The tier that a stored number stands for.
    pub fn of_code(code: i32) -> (tier: Privilege)
        ensures
            tier == Privilege::spec_of_code(code as int),
    {
        if code == 1 {
            Privilege::Administrator
        } else {
            Privilege::User
        }
    }
}

/// What is handed to the credential store to create a user.
pub struct NewUser<'a> {
    pub username: &'a str,
    pub password: &'a [u8],
}

/// A model file that label sets refer to.
#[derive(Clone)]
pub struct Model {
    pub id: i32,
    pub filename: String,
}

/// A label-set resource: its identifier, its external identifier, its
/// display name and the model it belongs to.
#[derive(Clone)]
pub struct LabelSet {
    pub id: i32,
    pub uuid: String,
    pub name: String,
    pub model: i32,
}

/// The mathematical content of a [`LabelSet`].
pub struct LabelSetView {
    pub id: int,
    pub uuid: Seq<char>,
    pub name: Seq<char>,
    pub model: int,
}

impl View for LabelSet {
    type V = LabelSetView;

    open spec fn view(&self) -> LabelSetView {
        LabelSetView {
            id: self.id as int,
            uuid: self.uuid@,
            name: self.name@,
            model: self.model as int,
        }
    }
}

/// What is handed to the content store to create a label set.
pub struct NewLabelSet<'a> {
    pub uuid: &'a str,
    pub name: &'a str,
    pub model: i32,
}

/// A label of a label set.
#[derive(Clone)]
pub struct Label {
    pub id: i32,
    pub labelset: i32,
    pub name: String,
    pub colour: String,
    pub vertices: Vec<u8>,
}

/// What is handed to the content store to create a label.
pub struct NewLabel<'a> {
    pub labelset: i32,
    pub name: &'a str,
    pub colour: &'a str,
    pub vertices: &'a [u8],
}

/// A grant: the user `userid` may access the label set `labelset`.
#[derive(Clone, Copy, Debug, PartialEq, Eq, Structural)]
pub struct UserLabelSet {
    pub userid: i32,
    pub labelset: i32,
}

/// The mathematical content of a [`UserLabelSet`].
pub struct Grant {
    pub user: int,
    pub label_set: int,
}

impl View for UserLabelSet {
    type V = Grant;

    open spec fn view(&self) -> Grant {
        Grant { user: self.userid as int, label_set: self.labelset as int }
    }
}

} // verus!
