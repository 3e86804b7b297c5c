//! The generic list tree the definition parsers consume: located atoms and
//! nested lists, read from the front.

use crate::text::same_text;
use vstd::prelude::*;
use vstd::std_specs::cmp::PartialEqSpecImpl;
use vstd::std_specs::convert::FromSpecImpl;

verus! {

/// A position in a source file.
#[derive(Debug)]
pub struct Location {
    pub line: usize,
    pub column: usize,
    pub file: Option<String>,
}

/// What a [`Location`] stands for.
pub struct LocationView {
    pub line: nat,
    pub column: nat,
    pub file: Option<Seq<char>>,
}

impl View for Location {
    type V = LocationView;

    open spec fn view(&self) -> LocationView {
        LocationView {
            line: self.line as nat,
            column: self.column as nat,
            file: match self.file {
                Some(f) => Some(f@),
                None => None,
            },
        }
    }
}

impl Clone for Location {
    fn clone(&self) -> (r: Self)
        ensures
            r@ == self@,
    {
        let file = match &self.file {
            Some(f) => Some(f.clone()),
            None => None,
        };
        Location { line: self.line, column: self.column, file }
    }
}

impl Default for Location {
    fn default() -> (r: Self)
        ensures
            r@ == Location::spec_origin(),
    {
        Location { line: 0, column: 0, file: None }
    }
}

impl PartialEq for Location {
    fn eq(&self, other: &Self) -> (r: bool) {
        let files = match (&self.file, &other.file) {
            (Some(a), Some(b)) => same_text(a.as_str(), b.as_str()),
            (None, None) => true,
            _ => false,
        };
        self.line == other.line && self.column == other.column && files
    }
}

impl PartialEqSpecImpl for Location {
    open spec fn obeys_eq_spec() -> bool {
        true
    }

    open spec fn eq_spec(&self, other: &Self) -> bool {
        self@ == other@
    }
}

/// A located failure: what was wrong and where.
#[derive(Debug)]
pub struct Error {
    pub message: String,
    pub location: Location,
}

/// What an [`Error`] stands for.
pub struct ErrorView {
    pub message: Seq<char>,
    pub location: LocationView,
}

impl View for Error {
    type V = ErrorView;

    open spec fn view(&self) -> ErrorView {
        ErrorView { message: self.message@, location: self.location@ }
    }
}

impl Clone for Error {
    fn clone(&self) -> (r: Self)
        ensures
            r@ == self@,
    {
        Error { message: self.message.clone(), location: self.location.clone() }
    }
}

/// Two errors are equal when they say the same thing, wherever they arose.
impl PartialEq for Error {
    fn eq(&self, other: &Self) -> (r: bool) {
        same_text(self.message.as_str(), other.message.as_str())
    }
}

impl PartialEqSpecImpl for Error {
    open spec fn obeys_eq_spec() -> bool {
        true
    }

    open spec fn eq_spec(&self, other: &Self) -> bool {
        self.message@ == other.message@
    }
}

impl From<&str> for Error {
    fn from(message: &str) -> (r: Self)
        ensures
            r@ == (ErrorView { message: message@, location: Location::spec_origin() }),
    {
        Error { message: String::from_str(message), location: Location::default() }
    }
}

impl FromSpecImpl<&str> for Error {
    open spec fn obeys_from_spec() -> bool {
        false
    }

    open spec fn from_spec(message: &str) -> Self {
        arbitrary()
    }
}

impl From<String> for Error {
    fn from(message: String) -> (r: Self)
        ensures
            r@ == (ErrorView { message: message@, location: Location::spec_origin() }),
    {
        Error { message, location: Location::default() }
    }
}

impl FromSpecImpl<String> for Error {
    open spec fn obeys_from_spec() -> bool {
        false
    }

    open spec fn from_spec(message: String) -> Self {
        arbitrary()
    }
}

/// The message of a failed expectation: `Expected ` followed by what was expected.
pub open spec fn expected_text(what: Seq<char>) -> Seq<char> {
    "Expected "@ + what
}

/// The error raised when `what` was expected at `location`.
pub fn expected(what: &str, location: Location) -> (r: Error)
    ensures
        r@ == (ErrorView { message: expected_text(what@), location: location@ }),
{
    let mut message = String::from_str("Expected ");
    message.append(what);
    Error { message, location }
}

/// One element of a list: an identifier, another kind of atom, or a nested list.
#[derive(Debug)]
pub enum Node {
    /// A name: a keyword, a type, the name of a field.
    Identifier { name: String, location: Location },
    /// Any other atom (a number, a boolean, a quoted string), as written.
    Literal { text: String, location: Location },
    /// A nested list.
    List(List),
}

/// A parenthesised list of nodes, with the place where it opens.
#[derive(Debug)]
pub struct List {
    pub location: Location,
    pub items: Vec<Node>,
}

/// What a [`Node`] stands for.
pub enum NodeView {
    Identifier { name: Seq<char>, location: LocationView },
    Literal { text: Seq<char>, location: LocationView },
    List(ListView),
}

/// What a [`List`] stands for.
pub struct ListView {
    pub location: LocationView,
    pub items: Seq<NodeView>,
}

/// The model of a node.
pub open spec fn node_view(n: Node) -> NodeView
    decreases n,
{
    match n {
        Node::Identifier { name, location } => NodeView::Identifier {
            name: name@,
            location: location@,
        },
        Node::Literal { text, location } => NodeView::Literal { text: text@, location: location@ },
        Node::List(l) => NodeView::List(
            ListView { location: l.location@, items: nodes_view(l.items@) },
        ),
    }
}

/// The models of a run of nodes, in order.
pub open spec fn nodes_view(items: Seq<Node>) -> Seq<NodeView>
    decreases items,
{
    Seq::new(
        items.len(),
        |i: int|
            if 0 <= i < items.len() {
                node_view(items[i])
            } else {
                arbitrary()
            },
    )
}

impl View for Node {
    type V = NodeView;

    open spec fn view(&self) -> NodeView {
        node_view(*self)
    }
}

impl View for List {
    type V = ListView;

    open spec fn view(&self) -> ListView {
        ListView { location: self.location@, items: nodes_view(self.items@) }
    }
}

impl NodeView {
    /// Where the node starts: an atom's own place, a list's opening.
    pub open spec fn first_location(self) -> LocationView {
        match self {
            NodeView::Identifier { location, .. } => location,
            NodeView::Literal { location, .. } => location,
            NodeView::List(l) => l.location,
        }
    }

    /// The node as source text: an atom as written, a list in parentheses.
    pub open spec fn text(self) -> Seq<char>
        decreases self,
    {
        match self {
            NodeView::Identifier { name, .. } => name,
            NodeView::Literal { text, .. } => text,
            NodeView::List(l) => seq!['('] + spaced_text(l.items, l.items.len() as int) + seq![')'],
        }
    }
}

/// The texts of the first `count` nodes, separated by single spaces.
pub open spec fn spaced_text(items: Seq<NodeView>, count: int) -> Seq<char>
    decreases items, count,
{
    if count <= 0 || count > items.len() {
        Seq::empty()
    } else if count == 1 {
        items[0].text()
    } else {
        spaced_text(items, count - 1) + seq![' '] + items[count - 1].text()
    }
}

impl ListView {
    /// Where the first node starts, or where the list opens when it is empty.
    pub open spec fn front_location(self) -> LocationView {
        if self.items.len() == 0 {
            self.location
        } else {
            self.items[0].first_location()
        }
    }

    /// The list without its first node.
    pub open spec fn rest(self) -> ListView {
        ListView { location: self.location, items: self.items.skip(1) }
    }

    /// Whether the list starts with an identifier.
    pub open spec fn front_is_identifier(self) -> bool {
        self.items.len() > 0 && self.items[0] is Identifier
    }

    /// Whether the list starts with a nested list.
    pub open spec fn front_is_list(self) -> bool {
        self.items.len() > 0 && self.items[0] is List
    }

    /// The error raised when the front of the list is not the expected `what`.
    pub open spec fn expected(self, what: Seq<char>) -> ErrorView {
        ErrorView { message: expected_text(what), location: self.front_location() }
    }

    /// The list as source text.
    pub open spec fn text(self) -> Seq<char> {
        NodeView::List(self).text()
    }
}

impl Clone for Node {
    fn clone(&self) -> (r: Self)
        ensures
            r@ == self@,
        decreases self,
    {
        match self {
            Node::Identifier { name, location } => Node::Identifier {
                name: name.clone(),
                location: location.clone(),
            },
            Node::Literal { text, location } => Node::Literal {
                text: text.clone(),
                location: location.clone(),
            },
            Node::List(l) => Node::List(l.clone()),
        }
    }
}

impl Clone for List {
    fn clone(&self) -> (r: Self)
        ensures
            r@ == self@,
        decreases self,
    {
        let mut items: Vec<Node> = Vec::new();
        let mut i: usize = 0;
        while i < self.items.len()
            invariant
                i <= self.items.len(),
                items@.len() == i,
                forall|k: int| 0 <= k < i ==> node_view(#[trigger] items@[k]) == node_view(self.items@[k]),
            decreases self.items.len() - i,
        {
            let node = self.items[i].clone();
            items.push(node);
            i += 1;
        }
        assert(nodes_view(items@) =~= nodes_view(self.items@));
        List { location: self.location.clone(), items }
    }
}

impl Node {
    /// Where the node starts: an atom's own place, a list's opening.
    pub fn first_location(&self) -> (r: Location)
        ensures
            r@ == self@.first_location(),
    {
        match self {
            Node::Identifier { location, .. } => location.clone(),
            Node::Literal { location, .. } => location.clone(),
            Node::List(l) => l.location.clone(),
        }
    }

    /// The identifier's name and place, or the failed expectation of an identifier.
    pub fn as_identifier(&self) -> (r: Result<(String, Location), Error>)
        ensures
            match r {
                Ok((name, location)) => self@ == (NodeView::Identifier {
                    name: name@,
                    location: location@,
                }),
                Err(e) => !(self@ is Identifier) && e@ == (ErrorView {
                    message: expected_text("identifier"@),
                    location: self@.first_location(),
                }),
            },
    {
        match self {
            Node::Identifier { name, location } => Ok((name.clone(), location.clone())),
            _ => Err(expected("identifier", self.first_location())),
        }
    }

    /// The node as source text.
    pub fn render(&self) -> (r: String)
        ensures
            r@ == self@.text(),
        decreases self,
    {
        match self {
            Node::Identifier { name, .. } => name.clone(),
            Node::Literal { text, .. } => text.clone(),
            Node::List(l) => l.render(),
        }
    }
}

impl List {
    /// A list that opens at `location` and holds `items`.
    pub fn new(location: Location, items: Vec<Node>) -> (r: List)
        ensures
            r.location == location,
            r.items == items,
    {
        List { location, items }
    }

    pub fn is_empty(&self) -> (r: bool)
        ensures
            r == (self@.items.len() == 0),
    {
        self.items.len() == 0
    }

    /// Where the list opens.
    pub fn location(&self) -> (r: Location)
        ensures
            r@ == self@.location,
    {
        self.location.clone()
    }

    /// The first node, if any, left in place.
    pub fn peek_front(&self) -> (r: Option<&Node>)
        ensures
            match r {
                Some(node) => self@.items.len() > 0 && node@ == self@.items[0],
                None => self@.items.len() == 0,
            },
    {
        if self.items.len() == 0 {
            None
        } else {
            Some(&self.items[0])
        }
    }

    pub fn front_is_list(&self) -> (r: bool)
        ensures
            r == self@.front_is_list(),
    {
        self.items.len() > 0 && matches!(self.items[0], Node::List(_))
    }

    pub fn front_is_identifier(&self) -> (r: bool)
        ensures
            r == self@.front_is_identifier(),
    {
        self.items.len() > 0 && matches!(self.items[0], Node::Identifier { .. })
    }

    /// Removes and returns the first node; fails, leaving the list as it
    /// is, when there is none.
    pub fn pop_front(&mut self, what: &str) -> (r: Result<Node, Error>)
        ensures
            match r {
                Ok(node) => old(self)@.items.len() > 0 && node@ == old(self)@.items[0] && final(
                    self
                )@ == old(self)@.rest(),
                Err(e) => old(self)@.items.len() == 0 && final(self)@ == old(self)@ && e@ == old(
                    self
                )@.expected(what@),
            },
    {
        if self.items.len() == 0 {
            Err(expected(what, self.location.clone()))
        } else {
            let node = self.items.remove(0);
            assert(nodes_view(self.items@) =~= nodes_view(old(self).items@).skip(1));
            Ok(node)
        }
    }

    /// Removes the first node when it is an identifier and returns its name
    /// and place; otherwise fails and leaves the list as it is.
    pub fn pop_identifier(&mut self, what: &str) -> (r: Result<(String, Location), Error>)
        ensures
            match r {
                Ok((name, location)) => old(self)@.front_is_identifier() && old(self)@.items[0]
                    == (NodeView::Identifier { name: name@, location: location@ }) && final(
                    self
                )@ == old(self)@.rest(),
                Err(e) => !old(self)@.front_is_identifier() && final(self)@ == old(self)@ && e@
                    == old(self)@.expected(what@),
            },
    {
        if self.front_is_identifier() {
            let node = self.items.remove(0);
            assert(nodes_view(self.items@) =~= nodes_view(old(self).items@).skip(1));
            match node {
                Node::Identifier { name, location } => Ok((name, location)),
                _ => Err(expected(what, self.location.clone())),
            }
        } else if self.items.len() == 0 {
            Err(expected(what, self.location.clone()))
        } else {
            Err(expected(what, self.items[0].first_location()))
        }
    }

    /// Removes the first node when it is a list and returns it; otherwise
    /// fails and leaves the list as it is.
    pub fn pop_list(&mut self, what: &str) -> (r: Result<List, Error>)
        ensures
            match r {
                Ok(inner) => old(self)@.front_is_list() && old(self)@.items[0] == NodeView::List(
                    inner@,
                ) && final(self)@ == old(self)@.rest(),
                Err(e) => !old(self)@.front_is_list() && final(self)@ == old(self)@ && e@ == old(
                    self
                )@.expected(what@),
            },
    {
        if self.front_is_list() {
            let node = self.items.remove(0);
            assert(nodes_view(self.items@) =~= nodes_view(old(self).items@).skip(1));
            match node {
                Node::List(inner) => Ok(inner),
                _ => Err(expected(what, self.location.clone())),
            }
        } else if self.items.len() == 0 {
            Err(expected(what, self.location.clone()))
        } else {
            Err(expected(what, self.items[0].first_location()))
        }
    }

    /// The list as source text: its nodes in parentheses, separated by spaces.
    pub fn render(&self) -> (r: String)
        ensures
            r@ == self@.text(),
        decreases self,
    {
        let mut out = String::from_str("(");
        proof {
            reveal_strlit("(");
            reveal_strlit(" ");
            reveal_strlit(")");
            assert("("@ == seq!['(']);
            assert(" "@ == seq![' ']);
            assert(")"@ == seq![')']);
        }
        let mut i: usize = 0;
        while i < self.items.len()
            invariant
                i <= self.items.len(),
                out@ == seq!['('] + spaced_text(self@.items, i as int),
                " "@ == seq![' '],
            decreases self.items.len() - i,
        {
            if i > 0 {
                out.append(" ");
            }
            let piece = self.items[i].render();
            out.append(piece.as_str());
            i += 1;
        }
        out.append(")");
        out
    }
}

impl Location {
    /// The place that stands for "nowhere in particular": line 0, column 0, no file.
    pub open spec fn spec_origin() -> LocationView {
        LocationView { line: 0, column: 0, file: None }
    }
}

} // verus!
