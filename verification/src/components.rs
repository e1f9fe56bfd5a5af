//! The counter/name variant's fragment composers.
//!
//! As in the to-do variant, each composer is a pure function of its
//! input, pinned by an exact spec-level rendering, and each fragment is
//! valid standalone HTML. The page's polymorphic content slot is a
//! closed set of fragment kinds, not an open-ended template object.

use vstd::prelude::*;

use crate::render::dec_digits;
use crate::render::u128_to_dec;

verus! {

/// The markup of the counter fragment showing `n`.
pub open spec fn spec_count_button(n: nat) -> Seq<char> {
    "<button id=\"count-button\">"@ + dec_digits(n) + "</button>"@
}

/// The counter fragment.
#[derive(Clone, Copy, Debug)]
pub struct CountButtonTemplate {
    pub count: usize,
}

impl CountButtonTemplate {
    /// Composes the counter fragment.
    pub fn render(&self) -> (r: String)
        ensures
            r@ == spec_count_button(self.count as nat),
    {
        let mut s = String::from_str("<button id=\"count-button\">");
        let digits = u128_to_dec(self.count as u128);
        s.append(digits.as_str());
        s.append("</button>");
        s
    }
}

/// The markup of the name-entry form shown to an anonymous client.
pub open spec fn spec_name_form() -> Seq<char> {
    "<form id=\"name-form\" action=\"/name\" method=\"post\"><input name=\"name\"><input name=\"count\"><button>start</button></form>"@
}

/// The name-entry form.
#[derive(Clone, Copy, Debug)]
pub struct NameFromTemplate {}

impl NameFromTemplate {
    /// Composes the name-entry form fragment.
    pub fn render(&self) -> (r: String)
        ensures
            r@ == spec_name_form(),
    {
        String::from_str(
            "<form id=\"name-form\" action=\"/name\" method=\"post\"><input name=\"name\"><input name=\"count\"><button>start</button></form>",
        )
    }
}

/// The markup of the name header greeting `name`; the name appears in
/// it exactly once.
pub open spec fn spec_name_header(name: Seq<char>) -> Seq<char> {
    "<h1 id=\"name-header\">Hello, "@ + name + "</h1>"@
}

/// The name header.
#[derive(Clone, Debug)]
pub struct NameHeaderTemplate {
    pub name: String,
}

impl NameHeaderTemplate {
    /// Composes the name-header fragment.
    pub fn render(&self) -> (r: String)
        ensures
            r@ == spec_name_header(self.name@),
    {
        let mut s = String::from_str("<h1 id=\"name-header\">Hello, ");
        s.append(self.name.as_str());
        s.append("</h1>");
        s
    }
}

/// The closed set of content kinds the counter page can carry: the
/// anonymous name form, or the named header with its counter.
#[derive(Clone, Debug)]
pub enum Fragment {
    NameForm(NameFromTemplate),
    Named(NameHeaderTemplate, CountButtonTemplate),
}

/// The markup of a content fragment.
pub open spec fn spec_fragment(f: Fragment) -> Seq<char> {
    match f {
        Fragment::NameForm(_) => spec_name_form(),
        Fragment::Named(h, b) => spec_name_header(h.name@) + spec_count_button(b.count as nat),
    }
}

/// The markup of the full counter page around content `f`.
pub open spec fn spec_counter_page(f: Fragment) -> Seq<char> {
    "<!doctype html><html><body><main>"@ + spec_fragment(f) + "</main></body></html>"@
}

/// The markup of the full page shown to an anonymous client: the
/// shell around the name-entry form.
pub open spec fn spec_page_anon() -> Seq<char> {
    "<!doctype html><html><body><main>"@ + spec_name_form() + "</main></body></html>"@
}

/// The markup of the full page shown to a named client: the shell
/// around the name header and the counter.
pub open spec fn spec_page_named(name: Seq<char>, count: nat) -> Seq<char> {
    "<!doctype html><html><body><main>"@ + spec_name_header(name) + spec_count_button(count)
        + "</main></body></html>"@
}

/// The Named page renders the submitted name exactly once: it
/// decomposes as a fixed prefix, the name itself, and a suffix in which
/// the name does not take part, only the count; and the count appears
/// through its own fragment, which shows exactly the submitted value.
pub proof fn lemma_named_page_shape(name: Seq<char>, count: nat)
    ensures
        spec_page_named(name, count) == ("<!doctype html><html><body><main>"@
            + "<h1 id=\"name-header\">Hello, "@) + name + ("</h1>"@ + spec_count_button(count)
            + "</main></body></html>"@),
        spec_count_button(count) == "<button id=\"count-button\">"@ + dec_digits(count)
            + "</button>"@,
{
    assert(spec_page_named(name, count) =~= ("<!doctype html><html><body><main>"@
        + "<h1 id=\"name-header\">Hello, "@) + name + ("</h1>"@ + spec_count_button(count)
        + "</main></body></html>"@));
}

/// The full counter page: a shell around one content fragment.
#[derive(Clone, Debug)]
pub struct IndexTemplate {
    pub content: Fragment,
}

impl IndexTemplate {
    /// Composes the full page around the content fragment.
    pub fn render(&self) -> (r: String)
        ensures
            r@ == spec_counter_page(self.content),
    {
        let mut s = String::from_str("<!doctype html><html><body><main>");
        match &self.content {
            Fragment::NameForm(f) => {
                let frag = f.render();
                s.append(frag.as_str());
            },
            Fragment::Named(h, b) => {
                let head = h.render();
                s.append(head.as_str());
                let button = b.render();
                s.append(button.as_str());
            },
        }
        s.append("</main></body></html>");
        s
    }
}

} // verus!
