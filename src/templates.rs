//! Filling in the markers of page and mail templates.

use vstd::prelude::*;

use crate::management::Action;
use crate::record::push_char;

verus! {

/// `s` with every occurrence of `from`, found from the left and without
/// overlap, replaced by `to`.
pub open spec fn replace_all(s: Seq<char>, from: Seq<char>, to: Seq<char>) -> Seq<char>
    decreases s.len(),
{
    if from.len() == 0 || s.len() < from.len() {
        s
    } else if s.subrange(0, from.len() as int) == from {
        to + replace_all(s.subrange(from.len() as int, s.len() as int), from, to)
    } else {
        seq![s[0]] + replace_all(s.drop_first(), from, to)
    }
}

/// Relies on `str::replace`: each match of `from`, found from the left and
/// without overlap, replaced by `to`.
#[verifier::external_body]
fn replace(s: &str, from: &str, to: &str) -> (r: String)
    requires
        from@.len() > 0,
    ensures
        r@ == replace_all(s@, from@, to@),
{
    s.replace(from, to)
}

/// The lower-case name of an action, as mails and logs show it.
pub open spec fn action_name(a: Action) -> Seq<char> {
    match a {
        Action::Add => seq!['a', 'd', 'd'],
        Action::Delete => seq!['d', 'e', 'l', 'e', 't', 'e'],
    }
}

impl Action {
    pub fn name(&self) -> (r: String)
        ensures
            r@ == action_name(*self),
    {
        let mut s = String::new();
        match self {
            Action::Add => {
                push_char(&mut s, 'a');
                push_char(&mut s, 'd');
                push_char(&mut s, 'd');
            },
            Action::Delete => {
                push_char(&mut s, 'd');
                push_char(&mut s, 'e');
                push_char(&mut s, 'l');
                push_char(&mut s, 'e');
                push_char(&mut s, 't');
                push_char(&mut s, 'e');
            },
        }
        assert(s@ =~= action_name(*self));
        s
    }
}

/// The status page: `((%s))` becomes the verdict, `((%m))` the message.
pub fn render_outcome(template: &str, success: bool, message: &str) -> (r: String)
    ensures
        r@ == replace_all(
            replace_all(
                template@,
                "((%s))"@,
                if success {
                    "Success!"@
                } else {
                    "Failure!"@
                },
            ),
            "((%m))"@,
            message@,
        ),
{
    proof {
        reveal_strlit("((%s))");
        reveal_strlit("((%m))");
    }
    let verdict = if success {
        "Success!"
    } else {
        "Failure!"
    };
    let page = replace(template, "((%s))", verdict);
    replace(page.as_str(), "((%m))", message)
}

/// A static page: `((%u))` becomes the external address of the service.
pub fn render_page(template: &str, external_url: &str) -> (r: String)
    ensures
        r@ == replace_all(template@, "((%u))"@, external_url@),
{
    proof {
        reveal_strlit("((%u))");
    }
    replace(template, "((%u))", external_url)
}

/// The subject of a confirmation mail: `%a` becomes the action's name.
pub fn confirmation_subject(subject_template: &str, action: Action) -> (r: String)
    ensures
        r@ == replace_all(subject_template@, "%a"@, action_name(action)),
{
    proof {
        reveal_strlit("%a");
    }
    let name = action.name();
    replace(subject_template, "%a", name.as_str())
}

/// The body of a confirmation mail: `{{%u}}` becomes the confirmation link,
/// `{{%a}}` the action's name.
pub fn confirmation_body(template: &str, confirm_url: &str, action: Action) -> (r: String)
    ensures
        r@ == replace_all(
            replace_all(template@, "{{%u}}"@, confirm_url@),
            "{{%a}}"@,
            action_name(action),
        ),
{
    proof {
        reveal_strlit("{{%u}}");
        reveal_strlit("{{%a}}");
    }
    let name = action.name();
    let body = replace(template, "{{%u}}", confirm_url);
    replace(body.as_str(), "{{%a}}", name.as_str())
}

} // verus!
