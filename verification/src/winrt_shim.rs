//! A capability shim for toast notifications: the WinRT `ToastGeneric` XML payload built from
//! structured [`ToastContent`], and the [`ToastShim`] surface a host implementation provides.
use vstd::prelude::*;
use crate::text::{push_char, push_str};

verus! {

/// A single actionable button on a toast.
#[derive(Debug, Clone)]
pub struct ToastAction {
    pub label: String,
    /// `arguments` string handed back to the app when the button is clicked.
    pub arguments: String,
}

/// Structured toast content, independent of any OS API.
#[derive(Debug, Clone)]
pub struct ToastContent {
    pub title: String,
    pub body: String,
    pub actions: Vec<ToastAction>,
}

pub open spec fn actions_view(v: Seq<ToastAction>) -> Seq<(Seq<char>, Seq<char>)> {
    v.map_values(|a: ToastAction| (a.label@, a.arguments@))
}

/// The XML escape of one character: `&`, `<`, `>` and `"` become entities.
pub open spec fn escape_char(c: char) -> Seq<char> {
    if c == '&' {
        "&amp;"@
    } else if c == '<' {
        "&lt;"@
    } else if c == '>' {
        "&gt;"@
    } else if c == '"' {
        "&quot;"@
    } else {
        seq![c]
    }
}

/// `s` with `&`, `<`, `>` and `"` escaped as XML entities.
pub open spec fn escaped(s: Seq<char>) -> Seq<char>
    decreases s.len(),
{
    if s.len() == 0 {
        seq![]
    } else {
        escaped(s.drop_last()) + escape_char(s.last())
    }
}

/// No markup character.
pub open spec fn not_markup(c: char) -> bool {
    c != '<' && c != '>' && c != '"'
}

/// Escaped text never holds a raw `<`, `>` or `"`, so a title, body or action cannot break
/// out of the toast XML's text or attribute values.
pub proof fn law_escaped_text_has_no_markup(s: Seq<char>)
    ensures
        forall|i: int| 0 <= i < escaped(s).len() ==> not_markup(#[trigger] escaped(s)[i]),
    decreases s.len(),
{
    if s.len() > 0 {
        law_escaped_text_has_no_markup(s.drop_last());
        let p = escaped(s.drop_last());
        let c = s.last();
        let e = escape_char(c);
        reveal_strlit("&amp;");
        reveal_strlit("&lt;");
        reveal_strlit("&gt;");
        reveal_strlit("&quot;");
        assert forall|j: int| 0 <= j < e.len() implies not_markup(#[trigger] e[j]) by {}
        assert forall|i: int| 0 <= i < escaped(s).len() implies not_markup(#[trigger] escaped(s)[i]) by {
            if i < p.len() {
                assert(escaped(s)[i] == p[i]);
            } else {
                assert(escaped(s)[i] == e[i - p.len()]);
            }
        }
    }
}

/// Minimal XML attribute/text escaping: `&`, `<`, `>` and `"`.
pub fn escape(s: &str) -> (r: String)
    ensures
        r@ == escaped(s@),
{
    let v = crate::text::chars_of(s);
    let mut r = String::new();
    let mut i: usize = 0;
    while i < v.len()
        invariant
            v@ == s@,
            i <= v@.len(),
            r@ == escaped(v@.take(i as int)),
        decreases v@.len() - i,
    {
        let c = v[i];
        if c == '&' {
            push_str(&mut r, "&amp;");
        } else if c == '<' {
            push_str(&mut r, "&lt;");
        } else if c == '>' {
            push_str(&mut r, "&gt;");
        } else if c == '"' {
            push_str(&mut r, "&quot;");
        } else {
            push_char(&mut r, c);
        }
        assert(v@.take(i + 1).drop_last() =~= v@.take(i as int));
        assert(r@ =~= escaped(v@.take(i + 1)));
        i = i + 1;
    }
    assert(v@.take(v@.len() as int) =~= v@);
    r
}

pub open spec fn action_xml(label: Seq<char>, arguments: Seq<char>) -> Seq<char> {
    "<action content=\""@ + escaped(label) + "\" arguments=\""@ + escaped(arguments)
        + "\" activationType=\"foreground\"/>"@
}

pub open spec fn actions_xml(actions: Seq<(Seq<char>, Seq<char>)>) -> Seq<char>
    decreases actions.len(),
{
    if actions.len() == 0 {
        seq![]
    } else {
        actions_xml(actions.drop_last()) + action_xml(actions.last().0, actions.last().1)
    }
}

/// The `ToastGeneric` payload: a binding with the title and body lines, then one `<action>`
/// per button inside `<actions>` (omitted when there are none).
pub open spec fn toast_xml(title: Seq<char>, body: Seq<char>, actions: Seq<(Seq<char>, Seq<char>)>) -> Seq<char> {
    "<toast>"@ + "<visual><binding template=\"ToastGeneric\">"@ + "<text>"@ + escaped(title)
        + "</text>"@ + "<text>"@ + escaped(body) + "</text>"@ + "</binding></visual>"@ + (if actions.len()
        == 0 {
        Seq::<char>::empty()
    } else {
        "<actions>"@ + actions_xml(actions) + "</actions>"@
    }) + "</toast>"@
}

impl ToastContent {
    /// A toast with a title and a body line and no buttons.
    pub fn new(title: String, body: String) -> (c: ToastContent)
        ensures
            c.title == title,
            c.body == body,
            c.actions@.len() == 0,
    {
        ToastContent { title, body, actions: Vec::new() }
    }

    /// The same toast with one more button.
    pub fn with_action(self, label: String, arguments: String) -> (c: ToastContent)
        ensures
            c.title == self.title,
            c.body == self.body,
            actions_view(c.actions@) == actions_view(self.actions@).push((label@, arguments@)),
    {
        let mut c = self;
        let ghost before = actions_view(c.actions@);
        let ghost item = (label@, arguments@);
        c.actions.push(ToastAction { label, arguments });
        assert(actions_view(c.actions@) =~= before.push(item));
        c
    }

    /// Renders the WinRT `ToastGeneric` XML payload.
    pub fn to_xml(&self) -> (xml: String)
        ensures
            xml@ == toast_xml(self.title@, self.body@, actions_view(self.actions@)),
    {
        let mut xml = String::new();
        push_str(&mut xml, "<toast>");
        push_str(&mut xml, "<visual><binding template=\"ToastGeneric\">");
        push_str(&mut xml, "<text>");
        push_str(&mut xml, escape(self.title.as_str()).as_str());
        push_str(&mut xml, "</text>");
        push_str(&mut xml, "<text>");
        push_str(&mut xml, escape(self.body.as_str()).as_str());
        push_str(&mut xml, "</text>");
        push_str(&mut xml, "</binding></visual>");
        let ghost av = actions_view(self.actions@);
        if self.actions.len() > 0 {
            push_str(&mut xml, "<actions>");
            let ghost head = xml@;
            let mut i: usize = 0;
            while i < self.actions.len()
                invariant
                    av == actions_view(self.actions@),
                    i <= self.actions@.len(),
                    xml@ == head + actions_xml(av.take(i as int)),
                decreases self.actions@.len() - i,
            {
                let a = &self.actions[i];
                push_str(&mut xml, "<action content=\"");
                push_str(&mut xml, escape(a.label.as_str()).as_str());
                push_str(&mut xml, "\" arguments=\"");
                push_str(&mut xml, escape(a.arguments.as_str()).as_str());
                push_str(&mut xml, "\" activationType=\"foreground\"/>");
                assert(av.take(i + 1).drop_last() =~= av.take(i as int));
                assert(av.take(i + 1).last() == (a.label@, a.arguments@));
                i = i + 1;
            }
            assert(av.take(self.actions@.len() as int) =~= av);
            push_str(&mut xml, "</actions>");
        }
        push_str(&mut xml, "</toast>");
        assert(xml@ =~= toast_xml(self.title@, self.body@, av));
        xml
    }
}

/// Error surface for a shim dispatch attempt.
#[derive(Debug, Clone)]
pub enum ShimError {
    /// The capability is not available on the current OS.
    Unsupported,
    /// Recognized on this OS, but the native binding isn't wired yet.
    NotImplemented(&'static str),
}

pub open spec fn shim_error_text(e: ShimError) -> Seq<char> {
    match e {
        ShimError::Unsupported => "capability unsupported on this OS"@,
        ShimError::NotImplemented(why) => "not implemented: "@ + why@,
    }
}

impl ShimError {
    /// The message a user reads.
    pub fn message(&self) -> (r: String)
        ensures
            r@ == shim_error_text(*self),
    {
        match self {
            ShimError::Unsupported => "capability unsupported on this OS".to_string(),
            ShimError::NotImplemented(why) => {
                let mut r = String::new();
                push_str(&mut r, "not implemented: ");
                push_str(&mut r, why);
                r
            },
        }
    }
}

/// A shim that can surface a toast on the host OS.
pub trait ToastShim {
    fn show(&self, content: &ToastContent) -> Result<(), ShimError>;
}

/// Whether this build targets Windows: `std::path::MAIN_SEPARATOR` is a backslash exactly
/// there. Nothing is stated of the result, which depends on the machine.
#[verifier::external_body]
fn targets_windows() -> (r: bool) {
    std::path::MAIN_SEPARATOR == '\\'
}

/// The OS-backed toast shim.
#[derive(Debug, Clone, Copy)]
pub struct SystemToast;

impl ToastShim for SystemToast {
    /// Never a silent success while the native binding is missing: on Windows the binding is
    /// reported as not implemented, elsewhere toasts are unsupported.
    fn show(&self, content: &ToastContent) -> (r: Result<(), ShimError>)
        ensures
            r matches Err(e) && (e is Unsupported || (e matches ShimError::NotImplemented(why)
                && why@ == "bind ToastContent::to_xml() to ToastNotificationManager via windows-rs"@)),
    {
        Err(system_toast_error(targets_windows()))
    }
}

/// What the OS-backed toast shim answers on a host: on Windows the native binding is not wired
/// yet (it needs a registered AppUserModelID); elsewhere toasts are unsupported. Never a silent
/// success.
pub fn system_toast_error(on_windows: bool) -> (e: ShimError)
    ensures
        on_windows ==> (e matches ShimError::NotImplemented(why) && why@
            == "bind ToastContent::to_xml() to ToastNotificationManager via windows-rs"@),
        !on_windows ==> e is Unsupported,
{
    if on_windows {
        ShimError::NotImplemented("bind ToastContent::to_xml() to ToastNotificationManager via windows-rs")
    } else {
        ShimError::Unsupported
    }
}

} // verus!
