//! The ways in which decoding or constructing a value can fail.

use vstd::prelude::*;

verus! {

/// A range that a bounded number must lie in.
#[derive(Clone, Copy, Debug, PartialEq, Eq, Structural)]
pub enum Bound {
    /// From zero to one hundred, both included.
    Percentage,
    /// Zero or more, with a positive sign.
    NonNegative,
}

/// A family of values that is told apart by shape alone.
#[derive(Clone, Copy, Debug, PartialEq, Eq, Structural)]
pub enum Union {
    Object,
    Link,
    Image,
    Collection,
    CollectionPage,
    Closed,
}

/// What went wrong.
#[derive(Debug, PartialEq, Eq)]
pub enum ErrorKind {
    /// The text is not a JSON document.
    MalformedInput,
    /// A tagged value has no discriminator field.
    MissingDiscriminator,
    /// A tagged value names a discriminator that its family does not know.
    UnknownVariant(String),
    /// None of the shapes of a union fits the value.
    NoMatchingVariant(Union),
    /// An array that must hold one or more items holds none.
    EmptyCollection,
    /// A number lies outside its range; `value` is the bit pattern of the
    /// binary64 number that was offered.
    BoundViolation { value: u64, bound: Bound },
    /// A value has another JSON type than its field asks for.
    FieldTypeMismatch,
    /// A field that must be present is absent.
    MissingRequiredField,
}

/// The model of an [`ErrorKind`].
pub enum FailureKind {
    MalformedInput,
    MissingDiscriminator,
    UnknownVariant(Seq<char>),
    NoMatchingVariant(Union),
    EmptyCollection,
    BoundViolation { value: u64, bound: Bound },
    FieldTypeMismatch,
    MissingRequiredField,
}

impl View for ErrorKind {
    type V = FailureKind;

    open spec fn view(&self) -> FailureKind {
        match self {
            ErrorKind::MalformedInput => FailureKind::MalformedInput,
            ErrorKind::MissingDiscriminator => FailureKind::MissingDiscriminator,
            ErrorKind::UnknownVariant(tag) => FailureKind::UnknownVariant(tag@),
            ErrorKind::NoMatchingVariant(union) => FailureKind::NoMatchingVariant(*union),
            ErrorKind::EmptyCollection => FailureKind::EmptyCollection,
            ErrorKind::BoundViolation { value, bound } => FailureKind::BoundViolation {
                value: *value,
                bound: *bound,
            },
            ErrorKind::FieldTypeMismatch => FailureKind::FieldTypeMismatch,
            ErrorKind::MissingRequiredField => FailureKind::MissingRequiredField,
        }
    }
}

/// A failure, with the names of the fields that lead to it from the outermost
/// to the innermost.
#[derive(Debug, PartialEq, Eq)]
pub struct CodecError {
    pub kind: ErrorKind,
    pub path: Vec<String>,
}

/// The model of a [`CodecError`].
pub struct Failure {
    pub kind: FailureKind,
    pub path: Seq<Seq<char>>,
}

/// A field path as text: the names from the outermost to the innermost,
/// with a dot between two names.
pub open spec fn joined(path: Seq<Seq<char>>) -> Seq<char>
    decreases path.len(),
{
    if path.len() == 0 {
        Seq::empty()
    } else if path.len() == 1 {
        path[0]
    } else {
        joined(path.drop_last()) + "."@ + path.last()
    }
}

/// The model of a field path.
pub open spec fn path_model(path: Seq<String>) -> Seq<Seq<char>> {
    Seq::new(path.len(), |i: int| path[i]@)
}

impl FailureKind {
    /// The sentence that says what went wrong.
    pub open spec fn sentence(self) -> Seq<char> {
        match self {
            FailureKind::MalformedInput => "the text is not a JSON document"@,
            FailureKind::MissingDiscriminator => "the discriminator field is missing"@,
            FailureKind::UnknownVariant(_) => "the discriminator names an unknown variant"@,
            FailureKind::NoMatchingVariant(_) => "the value fits none of the shapes of its union"@,
            FailureKind::EmptyCollection => "an array of one or more items is empty"@,
            FailureKind::BoundViolation { value: _, bound } => bound.sentence(),
            FailureKind::FieldTypeMismatch => "the value has the wrong JSON type"@,
            FailureKind::MissingRequiredField => "a required field is missing"@,
        }
    }
}

impl Failure {
    /// A failure of the given kind at the value itself.
    pub open spec fn at_root(kind: FailureKind) -> Failure {
        Failure { kind, path: Seq::empty() }
    }

    /// The same failure, seen from the record that holds the failing value
    /// under `key`.
    pub open spec fn within(self, key: Seq<char>) -> Failure {
        Failure { kind: self.kind, path: seq![key] + self.path }
    }

    /// The failure in one line: the path of the failing field, where there is
    /// one, and the sentence that says what went wrong.
    pub open spec fn described(self) -> Seq<char> {
        if self.path.len() == 0 {
            self.kind.sentence()
        } else {
            joined(self.path) + ": "@ + self.kind.sentence()
        }
    }
}

impl View for CodecError {
    type V = Failure;

    open spec fn view(&self) -> Failure {
        Failure { kind: self.kind@, path: path_model(self.path@) }
    }
}

impl CodecError {
    /// A failure of the given kind at the value itself.
    pub fn at_root(kind: ErrorKind) -> (r: CodecError)
        ensures
            r@ == Failure::at_root(kind@),
    {
        let r = CodecError { kind, path: Vec::new() };
        assert(path_model(r.path@) =~= Seq::empty());
        r
    }

    /// The same failure, seen from the record that holds the failing value
    /// under `key`.
    pub fn within(self, key: &str) -> (r: CodecError)
        ensures
            r@ == self@.within(key@),
    {
        let CodecError { kind, path } = self;
        let mut path = path;
        let ghost before = path@;
        path.insert(0, key.to_owned());
        assert(path_model(path@) =~= seq![key@] + path_model(before));
        CodecError { kind, path }
    }

    /// A sentence that says what went wrong.
    pub fn message(&self) -> (r: &'static str)
        ensures
            r@ == self@.kind.sentence(),
    {
        match &self.kind {
            ErrorKind::MalformedInput => "the text is not a JSON document",
            ErrorKind::MissingDiscriminator => "the discriminator field is missing",
            ErrorKind::UnknownVariant(_) => "the discriminator names an unknown variant",
            ErrorKind::NoMatchingVariant(_) => "the value fits none of the shapes of its union",
            ErrorKind::EmptyCollection => "an array of one or more items is empty",
            ErrorKind::BoundViolation { value: _, bound } => bound.message(),
            ErrorKind::FieldTypeMismatch => "the value has the wrong JSON type",
            ErrorKind::MissingRequiredField => "a required field is missing",
        }
    }
}

impl CodecError {
    /// The failure in one line: the path of the failing field, where there is
    /// one, and the sentence that says what went wrong.
    pub fn describe(&self) -> (r: String)
        ensures
            r@ == self@.described(),
    {
        let ghost path = path_model(self.path@);
        let mut text = String::new();
        let mut i: usize = 0;
        assert(path.subrange(0, 0) =~= Seq::empty());
        while i < self.path.len()
            invariant
                0 <= i <= self.path.len(),
                path == path_model(self.path@),
                text@ == joined(path.subrange(0, i as int)),
            decreases self.path.len() - i,
        {
            let ghost before = path.subrange(0, i as int);
            let ghost now = path.subrange(0, i + 1);
            assert(now.drop_last() =~= before);
            assert(now.last() == self.path[i as int]@);
            if i > 0 {
                text.append(".");
            }
            text.append(self.path[i].as_str());
            assert(text@ =~= joined(now));
            i += 1;
        }
        assert(path.subrange(0, path.len() as int) =~= path);
        if self.path.len() > 0 {
            text.append(": ");
        }
        text.append(self.message());
        assert(text@ =~= self@.described());
        text
    }
}

impl Bound {
    /// A sentence that names the range.
    pub fn message(&self) -> (r: &'static str)
        ensures
            r@ == self.sentence(),
    {
        match self {
            Bound::Percentage => "Percentage must be +0 <= X <= +100",
            Bound::NonNegative => "Positive float must be >= +0",
        }
    }

    /// The sentence that `message` returns.
    pub open spec fn sentence(&self) -> Seq<char> {
        match self {
            Bound::Percentage => "Percentage must be +0 <= X <= +100"@,
            Bound::NonNegative => "Positive float must be >= +0"@,
        }
    }
}

} // verus!
