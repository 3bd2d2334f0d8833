//! Service Control Protocol Description.
//!
//! An SCPD lists the state variables of a service and the actions that
//! read and write them.  The URN is supplied by the caller because the
//! document itself does not carry it.

use vstd::prelude::*;

use std::rc::Rc;

pub mod action;
pub mod datatypes;
pub mod state_variable;

pub use action::{Action, Argument, ParseDirectionErr};
pub use datatypes::{Bool, ParseBoolError};
pub use state_variable::{DataType, ParseDataTypeErr, StateVariable, StateVariableKind,
    StateVariableRange};

use crate::error::Error;
use crate::urn::URN;
use crate::xml::{find_child, find_named, find_root, last_child_named, parse_xml, text_of,
    xml_tree_of, XmlElement};
use action::{action_err_matches, action_matches, action_wf, var_names};
use state_variable::{sv_err_matches, sv_matches, sv_wf};

verus! {

/// The parsed description of one service: its state variables and its
/// actions, in document order, under the caller-supplied URN.
#[derive(Debug)]
pub struct SCPD {
    pub urn: URN,
    pub state_variables: Vec<Rc<StateVariable>>,
    pub actions: Vec<Action>,
}

/// The names the variables of a `serviceStateTable` element declare, in
/// document order (meaningful when every entry is well-formed).
pub open spec fn table_var_names(table: XmlElement) -> Seq<Seq<char>> {
    table.children@.map_values(
        |c: XmlElement| text_of(last_child_named(c.children@, "name"@)->Some_0),
    )
}

/// An `scpd` element is well-formed: required `serviceStateTable` and
/// `actionList`, every state variable well-formed, and every action
/// well-formed against the variables the table declares.
pub open spec fn scpd_wf(root: XmlElement) -> bool {
    &&& last_child_named(root.children@, "serviceStateTable"@) is Some
    &&& last_child_named(root.children@, "actionList"@) is Some
    &&& {
        let table = last_child_named(root.children@, "serviceStateTable"@)->Some_0;
        let list = last_child_named(root.children@, "actionList"@)->Some_0;
        &&& forall|j: int|
            0 <= j < table.children@.len() ==> sv_wf(#[trigger] table.children@[j])
        &&& forall|j: int|
            0 <= j < list.children@.len() ==> action_wf(
                #[trigger] list.children@[j],
                table_var_names(table),
            )
    }
}

/// The parsed SCPD is exactly what the `scpd` element declares.
pub open spec fn scpd_matches(sc: SCPD, root: XmlElement) -> bool {
    let table = last_child_named(root.children@, "serviceStateTable"@)->Some_0;
    let list = last_child_named(root.children@, "actionList"@)->Some_0;
    &&& sc.state_variables@.len() == table.children@.len()
    &&& forall|j: int|
        0 <= j < table.children@.len() ==> sv_matches(
            *(#[trigger] sc.state_variables@[j]),
            table.children@[j],
        )
    &&& sc.actions@.len() == list.children@.len()
    &&& forall|j: int|
        0 <= j < list.children@.len() ==> action_matches(
            #[trigger] sc.actions@[j],
            list.children@[j],
            sc.state_variables@,
        )
}

/// The error a malformed `scpd` element produces: a missing table or
/// list, or the error of the first malformed variable, or the error of
/// the first malformed action.
pub open spec fn scpd_err_matches(err: Error, root: XmlElement) -> bool {
    if last_child_named(root.children@, "serviceStateTable"@) is None {
        err.is_missing_element(root.name@, "serviceStateTable"@)
    } else if last_child_named(root.children@, "actionList"@) is None {
        err.is_missing_element(root.name@, "actionList"@)
    } else {
        let table = last_child_named(root.children@, "serviceStateTable"@)->Some_0;
        let list = last_child_named(root.children@, "actionList"@)->Some_0;
        if exists|j: int| 0 <= j < table.children@.len() && !sv_wf(#[trigger] table.children@[j]) {
            exists|j: int|
                {
                    &&& 0 <= j < table.children@.len()
                    &&& !sv_wf(#[trigger] table.children@[j])
                    &&& forall|k: int| 0 <= k < j ==> sv_wf(#[trigger] table.children@[k])
                    &&& sv_err_matches(err, table.children@[j])
                }
        } else {
            exists|j: int|
                {
                    &&& 0 <= j < list.children@.len()
                    &&& !action_wf(#[trigger] list.children@[j], table_var_names(table))
                    &&& forall|k: int|
                        0 <= k < j ==> action_wf(#[trigger] list.children@[k], table_var_names(table))
                    &&& action_err_matches(err, list.children@[j], table_var_names(table))
                }
        }
    }
}

impl SCPD {
    /// The URN under which this description was fetched.
    pub fn urn(&self) -> (r: &URN)
        ensures
            r == self.urn,
    {
        &self.urn
    }

    /// The state variables of the service, in document order.
    pub fn state_variables(&self) -> (r: &[Rc<StateVariable>])
        ensures
            r@ == self.state_variables@,
    {
        self.state_variables.as_slice()
    }

    /// The actions of the service, in document order.
    pub fn actions(&self) -> (r: &[Action])
        ensures
            r@ == self.actions@,
    {
        self.actions.as_slice()
    }

    /// Reads an `scpd` element: the `serviceStateTable` first, then the
    /// `actionList` resolved against it.  The `urn` is taken from the
    /// caller because the document does not name it.
    pub fn from_xml(root: &XmlElement, urn: URN) -> (r: Result<SCPD, Error>)
        ensures
            r is Ok <==> scpd_wf(*root),
            r matches Ok(sc) ==> sc.urn == urn && scpd_matches(sc, *root),
            r matches Err(err) ==> scpd_err_matches(err, *root),
    {
        let table = match find_child(root, "serviceStateTable") {
            Some(t) => t,
            None => {
                return Err(Error::XmlMissingElement(
                    root.name.clone(),
                    String::from_str("serviceStateTable"),
                ));
            },
        };
        let list = match find_child(root, "actionList") {
            Some(l) => l,
            None => {
                return Err(Error::XmlMissingElement(
                    root.name.clone(),
                    String::from_str("actionList"),
                ));
            },
        };
        let mut state_variables: Vec<Rc<StateVariable>> = Vec::new();
        let mut i: usize = 0;
        while i < table.children.len()
            invariant
                last_child_named(root.children@, "serviceStateTable"@) == Some(*table),
                last_child_named(root.children@, "actionList"@) == Some(*list),
                0 <= i <= table.children@.len(),
                state_variables@.len() == i,
                forall|j: int| 0 <= j < i ==> sv_wf(#[trigger] table.children@[j]),
                forall|j: int|
                    0 <= j < i ==> sv_matches(
                        *(#[trigger] state_variables@[j]),
                        table.children@[j],
                    ),
            decreases table.children@.len() - i,
        {
            match StateVariable::from_xml(&table.children[i]) {
                Ok(v) => {
                    state_variables.push(Rc::new(v));
                },
                Err(err) => {
                    proof {
                        let tb = last_child_named(root.children@, "serviceStateTable"@)->Some_0;
                        assert(tb == *table);
                        assert(!sv_wf(tb.children@[i as int]));
                        assert(sv_err_matches(err, tb.children@[i as int]));
                        assert(forall|k: int| 0 <= k < i ==> sv_wf(#[trigger] tb.children@[k]));
                        assert(exists|j: int|
                            {
                                &&& 0 <= j < tb.children@.len()
                                &&& !sv_wf(#[trigger] tb.children@[j])
                                &&& forall|k: int| 0 <= k < j ==> sv_wf(#[trigger] tb.children@[k])
                                &&& sv_err_matches(err, tb.children@[j])
                            });
                    }
                    return Err(err);
                },
            }
            i = i + 1;
        }
        proof {
            assert(var_names(state_variables@) =~= table_var_names(*table));
        }
        let mut actions: Vec<Action> = Vec::new();
        let mut i: usize = 0;
        while i < list.children.len()
            invariant
                last_child_named(root.children@, "serviceStateTable"@) == Some(*table),
                last_child_named(root.children@, "actionList"@) == Some(*list),
                0 <= i <= list.children@.len(),
                actions@.len() == i,
                var_names(state_variables@) == table_var_names(*table),
                forall|j: int| 0 <= j < table.children@.len() ==> sv_wf(#[trigger] table.children@[j]),
                forall|j: int|
                    0 <= j < table.children@.len() ==> sv_matches(
                        *(#[trigger] state_variables@[j]),
                        table.children@[j],
                    ),
                state_variables@.len() == table.children@.len(),
                forall|j: int|
                    0 <= j < i ==> action_wf(#[trigger] list.children@[j], table_var_names(*table)),
                forall|j: int|
                    0 <= j < i ==> action_matches(
                        #[trigger] actions@[j],
                        list.children@[j],
                        state_variables@,
                    ),
            decreases list.children@.len() - i,
        {
            match Action::from_xml(&list.children[i], &state_variables) {
                Ok(a) => {
                    actions.push(a);
                },
                Err(err) => {
                    proof {
                        let tb = last_child_named(root.children@, "serviceStateTable"@)->Some_0;
                        let ls = last_child_named(root.children@, "actionList"@)->Some_0;
                        assert(tb == *table && ls == *list);
                        assert(!action_wf(ls.children@[i as int], table_var_names(tb)));
                        assert(action_err_matches(err, ls.children@[i as int], table_var_names(tb)));
                        assert(forall|k: int|
                            0 <= k < i ==> action_wf(#[trigger] ls.children@[k], table_var_names(tb)));
                        assert(forall|j: int|
                            0 <= j < tb.children@.len() ==> sv_wf(#[trigger] tb.children@[j]));
                        assert(exists|j: int|
                            {
                                &&& 0 <= j < ls.children@.len()
                                &&& !action_wf(#[trigger] ls.children@[j], table_var_names(tb))
                                &&& forall|k: int|
                                    0 <= k < j ==> action_wf(
                                        #[trigger] ls.children@[k],
                                        table_var_names(tb),
                                    )
                                &&& action_err_matches(err, ls.children@[j], table_var_names(tb))
                            });
                    }
                    return Err(err);
                },
            }
            i = i + 1;
        }
        Ok(SCPD { urn, state_variables, actions })
    }
}

/// Reads a whole SCPD document: the text is parsed as XML, the `scpd`
/// root is located by a case-insensitive pre-order search, and the
/// element is decoded by [`SCPD::from_xml`].
pub fn parse_scpd(text: &str, urn: URN) -> (r: Result<SCPD, Error>)
    ensures
        match xml_tree_of(text@) {
            None => r matches Err(e) && e is XmlError,
            Some(root) => match find_named(root, "scpd"@) {
                None => r matches Err(e) && e.is_missing_element(
                    "Service Control Point Definition"@,
                    "scpd"@,
                ),
                Some(sc_el) => {
                    &&& r is Ok <==> scpd_wf(sc_el)
                    &&& (r matches Ok(sc) ==> sc.urn == urn && scpd_matches(sc, sc_el))
                    &&& (r matches Err(err) ==> scpd_err_matches(err, sc_el))
                },
            },
        },
{
    let root = match parse_xml(text) {
        Some(root) => root,
        None => {
            return Err(Error::XmlError);
        },
    };
    let sc_el = match find_root(&root, "scpd", "Service Control Point Definition") {
        Ok(el) => el,
        Err(err) => {
            return Err(err);
        },
    };
    SCPD::from_xml(sc_el, urn)
}

} // verus!
