//! The stateless handlers: greeting formatters, the odd-number lookup,
//! the randomized responder's decision, the poem page renderer and the
//! health reply. Each is a pure function of its input; the server around
//! them only extracts requests and writes responses.

use vstd::prelude::*;
use vstd::string::StringExecFns;

verus! {

/// A named person, as the template route renders one.
pub struct Person {
    name: String,
}

impl View for Person {
    type V = Seq<char>;

    closed spec fn view(&self) -> Seq<char> {
        self.name@
    }
}

impl Person {
    pub fn new(name: String) -> (r: Person)
        ensures
            r@ == name@,
    {
        Person { name }
    }

    pub fn name(&self) -> (r: &str)
        ensures
            r@ == self@,
    {
        self.name.as_str()
    }
}

/// The fixed greeting of the root page.
pub fn hello_message() -> (r: &'static str)
    ensures
        r@ == "Hello, World1!"@,
{
    "Hello, World1!"
}

/// The fixed reply to a post against the root page.
pub fn post_hello_message() -> (r: &'static str)
    ensures
        r@ == "Hello, World1 post!"@,
{
    "Hello, World1 post!"
}

/// The ping endpoint's reply.
pub fn ping_message() -> (r: &'static str)
    ensures
        r@ == "pong"@,
{
    "pong"
}

/// The king endpoint's reply.
pub fn king_message() -> (r: &'static str)
    ensures
        r@ == "Kong"@,
{
    "Kong"
}

/// The greeting for a name taken from the path.
pub fn greet_name(name: &str) -> (r: String)
    ensures
        r@ == "Hello, "@ + name@ + "!"@,
{
    let mut out = "Hello, ".to_owned();
    out.append(name);
    out.append("!");
    out
}

/// The greeting for an optional salutation and name, as query or body
/// parameters carry them: absent parts fall back to "Hello" and
/// "World".
pub fn greet(salutation: &Option<String>, name: &Option<String>) -> (r: String)
    ensures
        r@ == (match *salutation {
            Some(s) => s@,
            None => "Hello"@,
        }) + ", "@ + (match *name {
            Some(n) => n@,
            None => "World"@,
        }) + "!"@,
{
    let mut out = match salutation {
        Some(s) => s.clone(),
        None => "Hello".to_owned(),
    };
    out.append(", ");
    match name {
        Some(n) => out.append(n.as_str()),
        None => out.append("World"),
    }
    out.append("!");
    out
}

/// Whether the lookup endpoint counts a number as found: exactly the
/// positive odd numbers are.
pub open spec fn lookup_found(n: int) -> bool {
    n > 0 && n % 2 == 1
}

/// What the lookup endpoint reports of a number.
pub struct LookupReport {
    pub number: i32,
    pub found: bool,
}

/// Look a number up: echoes the number, marks exactly the positive odd
/// ones as found, and pairs the report with status 200 when found and
/// 404 when not.
pub fn look_it_up(number: i32) -> (r: (u16, LookupReport))
    ensures
        r.1.number == number,
        r.1.found == lookup_found(number as int),
        r.0 == if lookup_found(number as int) {
            200u16
        } else {
            404u16
        },
{
    let found = number > 0 && number % 2 == 1;
    let status: u16 = if found {
        200
    } else {
        404
    };
    (status, LookupReport { number, found })
}

/// The three shapes the randomized responder can answer with.
#[derive(Clone, Copy, Debug, PartialEq, Eq, Structural)]
pub enum RandomChoice {
    Greeting,
    NotImplemented,
    Answer,
}

/// Relies on rand::random_range: a sample out of the half-open range it
/// is given, so here one of 0, 1 and 2. Nothing more is promised of a
/// random draw.
#[verifier::external_body]
fn draw_below_three() -> (r: u8)
    ensures
        r < 3,
{
    rand::random_range(0..3u8)
}

/// Which reply a draw selects: 0 the greeting, 1 the not-implemented
/// status, 2 the numeric answer.
pub fn choice_of_draw(draw: u8) -> (r: RandomChoice)
    requires
        draw < 3,
    ensures
        draw == 0 ==> r == RandomChoice::Greeting,
        draw == 1 ==> r == RandomChoice::NotImplemented,
        draw == 2 ==> r == RandomChoice::Answer,
{
    match draw {
        0 => RandomChoice::Greeting,
        1 => RandomChoice::NotImplemented,
        _ => RandomChoice::Answer,
    }
}

/// Draw at random and select the reply. Whatever the draw, the answer
/// is the selection the draw maps to under `choice_of_draw`.
pub fn random_reply() -> RandomChoice {
    choice_of_draw(draw_below_three())
}

/// A poem: a title and its text.
pub struct Poem {
    pub title: String,
    pub text: String,
}

/// The page the poem endpoint serves for a title and a text.
pub open spec fn poem_page(title: Seq<char>, text: Seq<char>) -> Seq<char> {
    "<html><head><title>"@ + title + "</title></head><body><h1>"@ + title + "</h1><pre>"@ + text
        + "</pre></body></html>"@
}

/// Render the poem as its HTML page: the title in the head and as the
/// heading, the text preformatted.
pub fn render_poem_page(poem: &Poem) -> (r: String)
    ensures
        r@ == poem_page(poem.title@, poem.text@),
{
    let mut out = "<html><head><title>".to_owned();
    out.append(poem.title.as_str());
    out.append("</title></head><body><h1>");
    out.append(poem.title.as_str());
    out.append("</h1><pre>");
    out.append(poem.text.as_str());
    out.append("</pre></body></html>");
    out
}

/// What can go wrong while serving the poem: the file cannot be read,
/// or its contents are not the expected document.
#[derive(Clone, Copy, Debug, PartialEq, Eq, Structural)]
pub enum PoemFault {
    FileAccess,
    YamlParse,
}

/// The error reply for a poem fault: status 500 with a message that
/// names the failing step and carries the underlying detail.
pub fn poem_fault_reply(fault: &PoemFault, detail: &str) -> (r: (u16, String))
    ensures
        r.0 == 500,
        fault is FileAccess ==> r.1@ == "Error while accessing file: "@ + detail@,
        fault is YamlParse ==> r.1@ == "Error in YMAL file: "@ + detail@,
{
    let mut out = match fault {
        PoemFault::FileAccess => "Error while accessing file: ".to_owned(),
        PoemFault::YamlParse => "Error in YMAL file: ".to_owned(),
    };
    out.append(detail);
    (500, out)
}

/// The health endpoint's reply body: its status tag and message.
pub fn health_reply() -> (r: (String, String))
    ensures
        r.0@ == "ok2"@,
        r.1@ == "API Services"@,
{
    ("ok2".to_owned(), "API Services".to_owned())
}

} // verus!
