//! Actions and their arguments.
//!
//! Every argument names a state variable of the same SCPD; resolution
//! against the already-parsed variable list happens while the action is
//! built, so an argument whose variable is missing never enters the
//! model.  The variable is shared by reference counting, never copied.

use vstd::prelude::*;

use std::rc::Rc;

use crate::error::Error;
use crate::scpd::state_variable::StateVariable;
use crate::strutil::{seq_ieq, str_ieq};
use crate::xml::{find_child, last_child_named, node_text, XmlElement};

verus! {

/// An SCPD action: a name and the ordered list of its arguments.
#[derive(Debug)]
pub struct Action {
    pub name: String,
    pub arguments: Vec<Argument>,
}

/// One argument of an action: its name, its direction, and a shared
/// reference to the state variable that types it.
#[derive(Debug)]
pub struct Argument {
    pub name: String,
    pub is_input: bool,
    pub state_var: Rc<StateVariable>,
}

/// The direction text was neither `in` nor `out`.
#[derive(Debug)]
pub struct ParseDirectionErr(pub String);

/// The names of the given state variables, in order.
pub open spec fn var_names(vars: Seq<Rc<StateVariable>>) -> Seq<Seq<char>> {
    vars.map_values(|v: Rc<StateVariable>| v.name@)
}

/// The index of the first name matching `t` up to ASCII case.
pub open spec fn resolve_idx(names: Seq<Seq<char>>, t: Seq<char>) -> Option<int>
    decreases names.len(),
{
    if names.len() == 0 {
        None
    } else if seq_ieq(names[0], t) {
        Some(0int)
    } else {
        match resolve_idx(names.drop_first(), t) {
            Some(i) => Some(i + 1),
            None => None,
        }
    }
}

/// The text under the `relatedStateVariable` child, where the element is
/// required to carry text at all.
pub open spec fn arg_related_text(e: XmlElement) -> Option<Seq<char>> {
    match last_child_named(e.children@, "relatedStateVariable"@) {
        Some(c) => match c.text {
            Some(t) => Some(t@),
            None => None,
        },
        None => None,
    }
}

pub open spec fn arg_direction_text(e: XmlElement) -> Seq<char> {
    crate::xml::text_of(last_child_named(e.children@, "direction"@)->Some_0)
}

/// An `argument` element is well-formed against the given variable names:
/// required `name`, `direction` (reading `in` or `out` up to case) and
/// `relatedStateVariable` children, text under the latter, and a variable
/// of that name in the list.
pub open spec fn arg_wf(e: XmlElement, names: Seq<Seq<char>>) -> bool {
    &&& last_child_named(e.children@, "name"@) is Some
    &&& last_child_named(e.children@, "direction"@) is Some
    &&& last_child_named(e.children@, "relatedStateVariable"@) is Some
    &&& arg_related_text(e) is Some
    &&& resolve_idx(names, arg_related_text(e)->Some_0) is Some
    &&& (seq_ieq(arg_direction_text(e), "in"@) || seq_ieq(arg_direction_text(e), "out"@))
}

/// The parsed argument `a` is exactly what the element `e` declares,
/// resolved against `vars`.
pub open spec fn arg_matches(a: Argument, e: XmlElement, vars: Seq<Rc<StateVariable>>) -> bool {
    &&& a.name@ == crate::xml::text_of(last_child_named(e.children@, "name"@)->Some_0)
    &&& a.is_input == seq_ieq(arg_direction_text(e), "in"@)
    &&& match resolve_idx(var_names(vars), arg_related_text(e)->Some_0) {
        Some(i) => a.state_var == vars[i],
        None => false,
    }
}

/// The error a malformed `argument` element produces.
pub open spec fn arg_err_matches(err: Error, e: XmlElement, names: Seq<Seq<char>>) -> bool {
    if last_child_named(e.children@, "name"@) is None {
        err.is_missing_element(e.name@, "name"@)
    } else if last_child_named(e.children@, "direction"@) is None {
        err.is_missing_element(e.name@, "direction"@)
    } else if last_child_named(e.children@, "relatedStateVariable"@) is None {
        err.is_missing_element(e.name@, "relatedStateVariable"@)
    } else if arg_related_text(e) is None {
        err matches Error::XmlMissingText(n) && n@ == "relatedStateVariable"@
    } else if resolve_idx(names, arg_related_text(e)->Some_0) is None {
        err.is_missing_element("serviceStateTable"@, arg_related_text(e)->Some_0)
    } else {
        err matches Error::InvalidResponse(_)
    }
}

impl Argument {
    /// Reads one `argument` element and resolves its
    /// `relatedStateVariable` (matched up to ASCII case) against the
    /// SCPD's variable list; a variable that cannot be resolved is an
    /// error here, at construction time.
    pub fn from_xml(e: &XmlElement, vars: &Vec<Rc<StateVariable>>) -> (r: Result<Argument, Error>)
        ensures
            r is Ok <==> arg_wf(*e, var_names(vars@)),
            r matches Ok(a) ==> arg_matches(a, *e, vars@),
            r matches Err(err) ==> !arg_wf(*e, var_names(vars@)) && arg_err_matches(
                err,
                *e,
                var_names(vars@),
            ),
    {
        let name_child = match find_child(e, "name") {
            Some(c) => c,
            None => {
                return Err(Error::XmlMissingElement(e.name.clone(), String::from_str("name")));
            },
        };
        let direction_child = match find_child(e, "direction") {
            Some(c) => c,
            None => {
                return Err(Error::XmlMissingElement(e.name.clone(), String::from_str("direction")));
            },
        };
        let related_child = match find_child(e, "relatedStateVariable") {
            Some(c) => c,
            None => {
                return Err(Error::XmlMissingElement(
                    e.name.clone(),
                    String::from_str("relatedStateVariable"),
                ));
            },
        };
        let related = match &related_child.text {
            Some(t) => t.as_str(),
            None => {
                return Err(Error::XmlMissingText(String::from_str("relatedStateVariable")));
            },
        };
        let state_var = match resolve_var(vars, related) {
            Some(v) => v,
            None => {
                return Err(Error::XmlMissingElement(
                    String::from_str("serviceStateTable"),
                    String::from_str(related),
                ));
            },
        };
        let direction = node_text(direction_child);
        let is_input = if str_ieq(direction, "in") {
            true
        } else if str_ieq(direction, "out") {
            false
        } else {
            let msg = String::from_str("invalid direction: `").concat(direction).concat("`");
            return Err(Error::invalid_response(msg));
        };
        Ok(Argument { name: String::from_str(node_text(name_child)), is_input, state_var })
    }

    /// The argument's name.
    pub fn name(&self) -> (r: &str)
        ensures
            r@ == self.name@,
    {
        self.name.as_str()
    }

    /// Whether the argument is an input of the action.
    pub fn is_input(&self) -> (r: bool)
        ensures
            r == self.is_input,
    {
        self.is_input
    }

    /// Whether the argument is an output of the action.
    pub fn is_output(&self) -> (r: bool)
        ensures
            r == !self.is_input,
    {
        !self.is_input
    }

    /// The state variable that types this argument, shared with the SCPD.
    pub fn related_state_variable(&self) -> (r: &Rc<StateVariable>)
        ensures
            *r == self.state_var,
    {
        &self.state_var
    }
}

/// Finds the first state variable whose name matches `t` up to ASCII case.
fn resolve_var(vars: &Vec<Rc<StateVariable>>, t: &str) -> (r: Option<Rc<StateVariable>>)
    ensures
        match r {
            Some(v) => resolve_idx(var_names(vars@), t@) matches Some(i) && v == vars@[i],
            None => resolve_idx(var_names(vars@), t@) is None,
        },
{
    let ghost names = var_names(vars@);
    let mut i: usize = 0;
    proof {
        assert(names =~= var_names(vars@.subrange(0, vars@.len() as int)));
    }
    while i < vars.len()
        invariant
            0 <= i <= vars@.len(),
            names == var_names(vars@),
            forall|j: int| 0 <= j < i ==> !seq_ieq(names[j], t@),
        decreases vars@.len() - i,
    {
        if str_ieq(vars[i].name.as_str(), t) {
            proof {
                lemma_resolve_first(names, t@, i as int);
            }
            return Some(vars[i].clone());
        }
        i = i + 1;
    }
    proof {
        lemma_resolve_none(names, t@);
    }
    None
}

/// When everything before `i` misses and `i` hits, `i` is the resolution.
proof fn lemma_resolve_first(names: Seq<Seq<char>>, t: Seq<char>, i: int)
    requires
        0 <= i < names.len(),
        seq_ieq(names[i], t),
        forall|j: int| 0 <= j < i ==> !seq_ieq(names[j], t),
    ensures
        resolve_idx(names, t) == Some(i),
    decreases i,
{
    if i == 0 {
    } else {
        assert(!seq_ieq(names[0], t));
        lemma_resolve_first(names.drop_first(), t, i - 1);
    }
}

/// When every name misses, resolution fails.
proof fn lemma_resolve_none(names: Seq<Seq<char>>, t: Seq<char>)
    requires
        forall|j: int| 0 <= j < names.len() ==> !seq_ieq(names[j], t),
    ensures
        resolve_idx(names, t) is None,
    decreases names.len(),
{
    if names.len() > 0 {
        lemma_resolve_none(names.drop_first(), t);
    }
}

/// The `argument` children of the action's `argumentList`, or none when
/// the list is absent (an action may have no arguments).
pub open spec fn action_arg_elems(e: XmlElement) -> Seq<XmlElement> {
    match last_child_named(e.children@, "argumentList"@) {
        Some(l) => l.children@,
        None => Seq::empty(),
    }
}

/// An `action` element is well-formed against the given variable names.
pub open spec fn action_wf(e: XmlElement, names: Seq<Seq<char>>) -> bool {
    &&& last_child_named(e.children@, "name"@) is Some
    &&& forall|j: int|
        0 <= j < action_arg_elems(e).len() ==> arg_wf(#[trigger] action_arg_elems(e)[j], names)
}

/// The parsed action `a` is exactly what the element `e` declares.
pub open spec fn action_matches(a: Action, e: XmlElement, vars: Seq<Rc<StateVariable>>) -> bool {
    &&& a.name@ == crate::xml::text_of(last_child_named(e.children@, "name"@)->Some_0)
    &&& a.arguments@.len() == action_arg_elems(e).len()
    &&& forall|j: int|
        0 <= j < a.arguments@.len() ==> arg_matches(
            #[trigger] a.arguments@[j],
            action_arg_elems(e)[j],
            vars,
        )
}

/// The error a malformed `action` element produces: a missing name, or
/// the error of its first malformed argument.
pub open spec fn action_err_matches(err: Error, e: XmlElement, names: Seq<Seq<char>>) -> bool {
    if last_child_named(e.children@, "name"@) is None {
        err.is_missing_element(e.name@, "name"@)
    } else {
        exists|j: int|
            {
                &&& 0 <= j < action_arg_elems(e).len()
                &&& !arg_wf(#[trigger] action_arg_elems(e)[j], names)
                &&& forall|k: int| 0 <= k < j ==> arg_wf(#[trigger] action_arg_elems(e)[k], names)
                &&& arg_err_matches(err, action_arg_elems(e)[j], names)
            }
    }
}

impl Action {
    /// Reads one `action` element: its required name, and its arguments
    /// (in document order) resolved against the SCPD's variable list.
    pub fn from_xml(e: &XmlElement, vars: &Vec<Rc<StateVariable>>) -> (r: Result<Action, Error>)
        ensures
            r is Ok <==> action_wf(*e, var_names(vars@)),
            r matches Ok(a) ==> action_matches(a, *e, vars@),
            r matches Err(err) ==> action_err_matches(err, *e, var_names(vars@)),
    {
        let name_child = match find_child(e, "name") {
            Some(c) => c,
            None => {
                return Err(Error::XmlMissingElement(e.name.clone(), String::from_str("name")));
            },
        };
        let mut arguments: Vec<Argument> = Vec::new();
        match find_child(e, "argumentList") {
            Some(l) => {
                let mut i: usize = 0;
                while i < l.children.len()
                    invariant
                        last_child_named(e.children@, "name"@) is Some,
                        last_child_named(e.children@, "argumentList"@) == Some(*l),
                        0 <= i <= l.children@.len(),
                        action_arg_elems(*e) == l.children@,
                        arguments@.len() == i,
                        forall|j: int|
                            0 <= j < i ==> arg_wf(#[trigger] l.children@[j], var_names(vars@)),
                        forall|j: int|
                            0 <= j < i ==> arg_matches(
                                #[trigger] arguments@[j],
                                l.children@[j],
                                vars@,
                            ),
                    decreases l.children@.len() - i,
                {
                    match Argument::from_xml(&l.children[i], vars) {
                        Ok(a) => {
                            arguments.push(a);
                        },
                        Err(err) => {
                            proof {
                                let elems = action_arg_elems(*e);
                                assert(elems[i as int] == l.children@[i as int]);
                                assert(!arg_wf(elems[i as int], var_names(vars@)));
                                assert(arg_err_matches(err, elems[i as int], var_names(vars@)));
                                assert(forall|k: int|
                                    0 <= k < i ==> arg_wf(#[trigger] elems[k], var_names(vars@)));
                                assert(exists|j: int|
                                    {
                                        &&& 0 <= j < elems.len()
                                        &&& !arg_wf(#[trigger] elems[j], var_names(vars@))
                                        &&& forall|k: int|
                                            0 <= k < j ==> arg_wf(
                                                #[trigger] elems[k],
                                                var_names(vars@),
                                            )
                                        &&& arg_err_matches(err, elems[j], var_names(vars@))
                                    });
                            }
                            return Err(err);
                        },
                    }
                    i = i + 1;
                }
            },
            None => {},
        }
        Ok(Action { name: String::from_str(node_text(name_child)), arguments })
    }

    /// The action's name.
    pub fn name(&self) -> (r: &String)
        ensures
            r@ == self.name@,
    {
        &self.name
    }

    /// All arguments of the action, in document order.
    pub fn arguments(&self) -> (r: &Vec<Argument>)
        ensures
            r@ == self.arguments@,
    {
        &self.arguments
    }

    /// The input arguments of the action, in order.
    pub fn input_arguments(&self) -> (r: Vec<&Argument>)
        ensures
            r@.map_values(|a: &Argument| *a) == args_with_direction(self.arguments@, true),
    {
        args_in_direction(&self.arguments, true)
    }

    /// The output arguments of the action, in order.
    pub fn output_arguments(&self) -> (r: Vec<&Argument>)
        ensures
            r@.map_values(|a: &Argument| *a) == args_with_direction(self.arguments@, false),
    {
        args_in_direction(&self.arguments, false)
    }
}

/// The subsequence of arguments with the given direction, in order.
pub open spec fn args_with_direction(s: Seq<Argument>, want_input: bool) -> Seq<Argument>
    decreases s.len(),
{
    if s.len() == 0 {
        Seq::empty()
    } else {
        args_with_direction(s.drop_last(), want_input) + if s.last().is_input == want_input {
            seq![s.last()]
        } else {
            Seq::empty()
        }
    }
}

fn args_in_direction(s: &Vec<Argument>, want_input: bool) -> (r: Vec<&Argument>)
    ensures
        r@.map_values(|a: &Argument| *a) == args_with_direction(s@, want_input),
{
    let mut out: Vec<&Argument> = Vec::new();
    let mut i: usize = 0;
    proof {
        assert(out@.map_values(|a: &Argument| *a) =~= args_with_direction(
            s@.subrange(0, 0),
            want_input,
        ));
    }
    while i < s.len()
        invariant
            0 <= i <= s@.len(),
            out@.map_values(|a: &Argument| *a) =~= args_with_direction(
                s@.subrange(0, i as int),
                want_input,
            ),
        decreases s@.len() - i,
    {
        let ghost pre = s@.subrange(0, i as int);
        let ghost ext = s@.subrange(0, i + 1);
        proof {
            assert(ext.drop_last() =~= pre);
            assert(ext.last() == s@[i as int]);
        }
        if s[i].is_input == want_input {
            out.push(&s[i]);
        }
        proof {
            assert(out@.map_values(|a: &Argument| *a) =~= args_with_direction(ext, want_input));
        }
        i = i + 1;
    }
    proof {
        assert(s@.subrange(0, s@.len() as int) =~= s@);
    }
    out
}

} // verus!
