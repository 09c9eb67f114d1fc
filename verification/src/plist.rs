//! Variable definitions in launchd property lists. The caller decodes the
//! property-list format (an external concern) into plain values; the logic
//! here reads two recognised shapes: a flat string-valued dictionary under
//! the `EnvironmentVariables` key, and a `ProgramArguments` array scanned
//! for a `launchctl setenv NAME value` token run.

use vstd::prelude::*;
use vstd::string::StringExecFns;

use crate::text::{concat_str, eq_chars, has_suffix, ends_with, str_eq, to_chars};
use crate::variable::{ChangeModel, Operation, VariableChange};

verus! {

/// Model of the decoded plist content.
pub ghost struct PlistModel {
    pub environment_variables: Option<Seq<(Seq<char>, Seq<char>)>>,
    pub program_arguments: Option<Seq<Seq<char>>>,
}

/// The two recognised shapes of a launchd property list, decoded to plain
/// values by the caller: the `EnvironmentVariables` dictionary's string
/// entries (absent when the plist has none), and the `ProgramArguments`
/// array's string elements.
#[derive(Debug)]
pub struct PlistData {
    pub environment_variables: Option<Vec<(String, String)>>,
    pub program_arguments: Option<Vec<String>>,
}

impl View for PlistData {
    type V = PlistModel;

    open spec fn view(&self) -> PlistModel {
        PlistModel {
            environment_variables: match self.environment_variables {
                Some(ref d) => Some(d.deep_view()),
                None => None,
            },
            program_arguments: match self.program_arguments {
                Some(ref a) => Some(a.deep_view()),
                None => None,
            },
        }
    }
}

/// The value of the first dictionary entry whose key is `target`.
pub open spec fn dict_lookup(dict: Seq<(Seq<char>, Seq<char>)>, i: int, target: Seq<char>) -> Option<
    Seq<char>,
>
    decreases dict.len() - i,
{
    if 0 <= i < dict.len() {
        if dict[i].0 == target {
            Some(dict[i].1)
        } else {
            dict_lookup(dict, i + 1, target)
        }
    } else {
        None
    }
}

/// Whether a window of four argument strings starting at `i` is a
/// `launchctl setenv target value` invocation.
pub open spec fn setenv_window_at(args: Seq<Seq<char>>, i: int, target: Seq<char>) -> bool {
    &&& 0 <= i
    &&& i + 4 <= args.len()
    &&& (has_suffix(args[i], "launchctl"@) || args[i] == "launchctl"@)
    &&& args[i + 1] == "setenv"@
    &&& args[i + 2] == target
}

/// The changes the `ProgramArguments` scan records from window `i` on.
pub open spec fn spec_setenv_changes(
    args: Seq<Seq<char>>,
    i: int,
    path: Seq<char>,
    target: Seq<char>,
) -> Seq<ChangeModel>
    decreases args.len() - i,
{
    if 0 <= i && i + 4 <= args.len() {
        let rest = spec_setenv_changes(args, i + 1, path, target);
        if setenv_window_at(args, i, target) {
            seq![
                ChangeModel {
                    file: path,
                    line_number: 0,
                    line_content: "launchctl setenv "@ + target + " "@ + args[i + 3],
                    operation: Operation::Assign,
                    value_before: None,
                    value_after: args[i + 3],
                },
            ] + rest
        } else {
            rest
        }
    } else {
        Seq::empty()
    }
}

/// The changes one decoded plist records for `target`: the dictionary entry,
/// if any, then every `launchctl setenv` window. Line numbers are 0: the
/// format has no line concept.
pub open spec fn spec_parse_plist(data: PlistModel, path: Seq<char>, target: Seq<char>) -> Seq<
    ChangeModel,
> {
    (match data.environment_variables {
        Some(dict) => match dict_lookup(dict, 0, target) {
            Some(val) => seq![
                ChangeModel {
                    file: path,
                    line_number: 0,
                    line_content: "EnvironmentVariables."@ + target + " = "@ + val,
                    operation: Operation::Assign,
                    value_before: None,
                    value_after: val,
                },
            ],
            None => Seq::empty(),
        },
        None => Seq::empty(),
    }) + (match data.program_arguments {
        Some(args) => spec_setenv_changes(args, 0, path, target),
        None => Seq::empty(),
    })
}

/// Parse a decoded launchd property list for definitions of `target_var`.
pub fn parse_plist_file(path: &str, target_var: &str, data: &PlistData) -> (r: Vec<VariableChange>)
    ensures
        r.deep_view() == spec_parse_plist(data@, path@, target_var@),
{
    let mut changes: Vec<VariableChange> = Vec::new();

    match &data.environment_variables {
        Some(dict) => {
            let ghost ddv = dict.deep_view();
            let mut i: usize = 0;
            let mut found = false;
            while !found && i < dict.len()
                invariant
                    ddv == dict.deep_view(),
                    i <= dict@.len(),
                    !found ==> dict_lookup(ddv, 0, target_var@) == dict_lookup(
                        ddv,
                        i as int,
                        target_var@,
                    ),
                    !found ==> changes.deep_view() =~= Seq::<ChangeModel>::empty(),
                    found ==> changes.deep_view() == (match dict_lookup(ddv, 0, target_var@) {
                        Some(val) => seq![
                            ChangeModel {
                                file: path@,
                                line_number: 0,
                                line_content: "EnvironmentVariables."@ + target_var@ + " = "@
                                    + val,
                                operation: Operation::Assign,
                                value_before: None,
                                value_after: val,
                            },
                        ],
                        None => Seq::empty(),
                    }),
                decreases dict@.len() - i + (if found {
                    0int
                } else {
                    1int
                }),
            {
                proof {
                    assert(ddv[i as int] == dict@[i as int].deep_view());
                }
                if str_eq(dict[i].0.as_str(), target_var) {
                    let val = dict[i].1.clone();
                    let line = concat_str(
                        concat_str(concat_str("EnvironmentVariables.", target_var).as_str(), " = ")
                            .as_str(),
                        val.as_str(),
                    );
                    let c = VariableChange {
                        file: path.to_owned(),
                        line_number: 0,
                        line_content: line,
                        operation: Operation::Assign,
                        value_before: None,
                        value_after: val,
                    };
                    let ghost cm = c@;
                    changes.push(c);
                    found = true;
                    proof {
                        assert(changes.deep_view() =~= seq![cm]);
                    }
                } else {
                    i = i + 1;
                }
            }
            proof {
                if !found {
                    assert(dict_lookup(ddv, i as int, target_var@) is None);
                }
            }
        },
        None => {},
    }
    let ghost part1 = changes.deep_view();
    proof {
        assert(part1 =~= (match data@.environment_variables {
            Some(dict) => match dict_lookup(dict, 0, target_var@) {
                Some(val) => seq![
                    ChangeModel {
                        file: path@,
                        line_number: 0,
                        line_content: "EnvironmentVariables."@ + target_var@ + " = "@ + val,
                        operation: Operation::Assign,
                        value_before: None,
                        value_after: val,
                    },
                ],
                None => Seq::empty(),
            },
            None => Seq::empty(),
        }));
    }

    match &data.program_arguments {
        Some(args) => {
            let ghost adv = args.deep_view();
            let launchctl = to_chars("launchctl");
            let setenv = to_chars("setenv");
            let targetc = to_chars(target_var);
            if args.len() >= 4 {
                let mut i: usize = 0;
                while i <= args.len() - 4
                    invariant
                        adv == args.deep_view(),
                        launchctl@ == "launchctl"@,
                        setenv@ == "setenv"@,
                        targetc@ == target_var@,
                        args@.len() >= 4,
                        i <= args@.len() - 3,
                        part1 + spec_setenv_changes(adv, 0, path@, target_var@)
                            == changes.deep_view() + spec_setenv_changes(
                            adv,
                            i as int,
                            path@,
                            target_var@,
                        ),
                    decreases args@.len() - i,
                {
                    proof {
                        assert(adv[i as int] == args@[i as int].deep_view());
                        assert(adv[i as int + 1] == args@[i as int + 1].deep_view());
                        assert(adv[i as int + 2] == args@[i as int + 2].deep_view());
                        assert(adv[i as int + 3] == args@[i as int + 3].deep_view());
                    }
                    let w0 = to_chars(args[i].as_str());
                    let is_launchctl = ends_with(&w0, &launchctl) || eq_chars(&w0, &launchctl);
                    let is_setenv = str_eq(args[i + 1].as_str(), "setenv");
                    let matches_var = str_eq(args[i + 2].as_str(), target_var);
                    if is_launchctl && is_setenv && matches_var {
                        let val = args[i + 3].clone();
                        let line = concat_str(
                            concat_str(concat_str("launchctl setenv ", target_var).as_str(), " ")
                                .as_str(),
                            val.as_str(),
                        );
                        let c = VariableChange {
                            file: path.to_owned(),
                            line_number: 0,
                            line_content: line,
                            operation: Operation::Assign,
                            value_before: None,
                            value_after: val,
                        };
                        let ghost cdv = changes.deep_view();
                        let ghost cm = c@;
                        changes.push(c);
                        proof {
                            assert(changes.deep_view() =~= cdv + seq![cm]);
                            assert(cdv + (seq![cm] + spec_setenv_changes(adv, i + 1, path@,
                                target_var@)) =~= (cdv + seq![cm]) + spec_setenv_changes(adv, i
                                + 1, path@, target_var@));
                        }
                    }
                    i = i + 1;
                }
                proof {
                    assert(spec_setenv_changes(adv, i as int, path@, target_var@)
                        =~= Seq::<ChangeModel>::empty());
                }
            } else {
                proof {
                    assert(spec_setenv_changes(adv, 0, path@, target_var@)
                        =~= Seq::<ChangeModel>::empty());
                }
            }
        },
        None => {},
    }
    proof {
        assert(changes.deep_view() =~= spec_parse_plist(data@, path@, target_var@));
    }
    changes
}

} // verus!
