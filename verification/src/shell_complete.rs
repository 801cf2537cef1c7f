//! Completion scripts for bash, zsh and fish: the program's commands and
//! the profile names as first words.

use vstd::prelude::*;

use crate::error::{Error, ErrorModel};
use crate::remote_path::{join_with, lemma_join_push};
use crate::text::{chars_eq_str, from_chars, push_str, strings_view, to_chars};

verus! {

/// The commands offered as first words, joined by spaces.
pub open spec fn commands_line() -> Seq<char> {
    "help ls cd pwd mkdir put get rm exit completion config"@
}

/// The commands offered as first words.
pub open spec fn command_list() -> Seq<Seq<char>> {
    seq![
        "help"@,
        "ls"@,
        "cd"@,
        "pwd"@,
        "mkdir"@,
        "put"@,
        "get"@,
        "rm"@,
        "exit"@,
        "completion"@,
        "config"@,
    ]
}

/// Each name between two quote characters `q`.
pub open spec fn quoted(names: Seq<Seq<char>>, q: char) -> Seq<Seq<char>> {
    Seq::new(names.len(), |i: int| seq![q] + names[i] + seq![q])
}

/// The profile names, each between quotes `q`, joined by spaces.
pub open spec fn quoted_words(names: Seq<Seq<char>>, q: char) -> Seq<char> {
    join_with(quoted(names, q), ' ')
}

/// The bash script.
pub open spec fn spec_bash_script(profiles: Seq<Seq<char>>) -> Seq<char> {
    "_bucketctl_completion() {\n    local cur prev words cword\n    _init_completion || return\n\n    local commands=\""@
        + commands_line() + "\"\n    local profiles=("@ + quoted_words(profiles, '"')
        + ")\n\n    if (( cword == 1 )); then\n        COMPREPLY=( $(compgen -W \"$commands ${profiles[@]}\" -- \"$cur\") )\n        return\n    fi\n\n    case \"${words[1]}\" in\n        ls|mkdir|put|get|rm|cd)\n            COMPREPLY=( $(compgen -f -- \"$cur\") )\n            ;;\n    esac\n}\n\ncomplete -F _bucketctl_completion bucketctl bkt\n"@
}

/// The zsh script.
pub open spec fn spec_zsh_script(profiles: Seq<Seq<char>>) -> Seq<char> {
    "#compdef bucketctl bkt\n\n_bucketctl() {\n    local -a commands profiles\n    commands=("@
        + commands_line() + ")\n    profiles=("@ + quoted_words(profiles, '\'')
        + ")\n\n    if (( CURRENT == 2 )); then\n        _describe 'command/profile' commands profiles\n        return\n    fi\n\n    case $words[2] in\n        ls|mkdir|put|get|rm|cd)\n            _files\n            ;;\n    esac\n}\n\n_bucketctl \"$@\"\n"@
}

/// One fish line offering `word` as a first word.
pub open spec fn fish_line(word: Seq<char>) -> Seq<char> {
    "complete -c bucketctl -c bkt -n '__fish_use_subcommand' -a '"@ + word + "'\n"@
}

/// The fish lines offering each of `words`.
pub open spec fn fish_lines(words: Seq<Seq<char>>) -> Seq<char>
    decreases words.len(),
{
    if words.len() == 0 {
        Seq::<char>::empty()
    } else {
        fish_lines(words.drop_last()) + fish_line(words.last())
    }
}

/// The fish script.
pub open spec fn spec_fish_script(profiles: Seq<Seq<char>>) -> Seq<char> {
    "complete -c bucketctl -c bkt\n"@ + fish_lines(command_list()) + fish_lines(profiles)
        + "complete -c bucketctl -c bkt -n '__fish_seen_subcommand_from ls mkdir put get rm cd' -f\n"@
}

/// `t` occurs in `s`.
pub open spec fn contains_text(s: Seq<char>, t: Seq<char>) -> bool {
    exists|i: int| 0 <= i && i + t.len() <= s.len() && #[trigger] s.subrange(i, i + t.len()) == t
}

/// What stands between two texts occurs in their concatenation.
proof fn lemma_contains_middle(a: Seq<char>, t: Seq<char>, b: Seq<char>)
    ensures
        contains_text(a + t + b, t),
{
    let s = a + t + b;
    let i = a.len() as int;
    assert(s.subrange(i, i + t.len()) =~= t);
}

/// Occurring is transitive.
proof fn lemma_contains_trans(s: Seq<char>, t: Seq<char>, u: Seq<char>)
    requires
        contains_text(s, t),
        contains_text(t, u),
    ensures
        contains_text(s, u),
{
    let i = choose|i: int| 0 <= i && i + t.len() <= s.len() && #[trigger] s.subrange(i, i + t.len()) == t;
    let j = choose|j: int| 0 <= j && j + u.len() <= t.len() && #[trigger] t.subrange(j, j + u.len()) == u;
    assert(s.subrange(i + j, i + j + u.len()) =~= u) by {
        assert forall|k: int| 0 <= k < u.len() implies s.subrange(i + j, i + j + u.len())[k] == u[k] by {
            assert(u[k] == t.subrange(j, j + u.len())[k]);
            assert(t[j + k] == s.subrange(i, i + t.len())[j + k]);
        }
    }
}

/// Each part occurs in the parts joined.
proof fn lemma_join_contains(parts: Seq<Seq<char>>, c: char, k: int)
    requires
        0 <= k < parts.len(),
    ensures
        contains_text(join_with(parts, c), parts[k]),
    decreases parts.len(),
{
    if parts.len() == 1 {
        lemma_contains_middle(Seq::<char>::empty(), parts[0], Seq::<char>::empty());
        assert(Seq::<char>::empty() + parts[0] + Seq::<char>::empty() =~= parts[0]);
    } else {
        let init = parts.drop_last();
        let j = join_with(init, c).push(c);
        if k == parts.len() - 1 {
            lemma_contains_middle(j, parts.last(), Seq::<char>::empty());
            assert(j + parts.last() + Seq::<char>::empty() =~= j + parts.last());
        } else {
            lemma_join_contains(init, c, k);
            assert(init[k] == parts[k]);
            lemma_contains_middle(Seq::<char>::empty(), join_with(init, c), seq![c] + parts.last());
            assert(Seq::<char>::empty() + join_with(init, c) + (seq![c] + parts.last()) =~= j
                + parts.last());
            lemma_contains_trans(join_with(parts, c), join_with(init, c), parts[k]);
        }
    }
}

/// Each name's fish line occurs in the fish lines.
proof fn lemma_fish_lines_contain(words: Seq<Seq<char>>, k: int)
    requires
        0 <= k < words.len(),
    ensures
        contains_text(fish_lines(words), fish_line(words[k])),
    decreases words.len(),
{
    let init = words.drop_last();
    if k == words.len() - 1 {
        lemma_contains_middle(fish_lines(init), fish_line(words.last()), Seq::<char>::empty());
        assert(fish_lines(init) + fish_line(words.last()) + Seq::<char>::empty() =~= fish_lines(
            words,
        ));
    } else {
        lemma_fish_lines_contain(init, k);
        assert(init[k] == words[k]);
        lemma_contains_middle(Seq::<char>::empty(), fish_lines(init), fish_line(words.last()));
        assert(Seq::<char>::empty() + fish_lines(init) + fish_line(words.last()) =~= fish_lines(
            words,
        ));
        lemma_contains_trans(fish_lines(words), fish_lines(init), fish_line(words[k]));
    }
}

/// Every completion script offers each profile name as a first word: zsh's
/// first-word `_describe` offers the commands and the profiles array, which
/// holds each name quoted; bash's first-word `compgen` offers the commands
/// and the profiles array, which holds each name quoted; fish has a
/// first-word line for each name.
pub proof fn law_scripts_offer_profiles(profiles: Seq<Seq<char>>)
    ensures
        contains_text(spec_zsh_script(profiles), "_describe 'command/profile' commands profiles"@),
        contains_text(
            spec_zsh_script(profiles),
            "profiles=("@ + quoted_words(profiles, '\'') + ")"@,
        ),
        contains_text(spec_bash_script(profiles), "compgen -W \"$commands ${profiles[@]}\""@),
        contains_text(
            spec_bash_script(profiles),
            "profiles=("@ + quoted_words(profiles, '"') + ")"@,
        ),
        forall|k: int|
            0 <= k < profiles.len() ==> {
                &&& contains_text(
                    spec_zsh_script(profiles),
                    seq!['\''] + #[trigger] profiles[k] + seq!['\''],
                )
                &&& contains_text(spec_bash_script(profiles), seq!['"'] + profiles[k] + seq!['"'])
                &&& contains_text(spec_fish_script(profiles), fish_line(profiles[k]))
            },
{
    let zq = quoted_words(profiles, '\'');
    let bq = quoted_words(profiles, '"');
    let z1 = "#compdef bucketctl bkt\n\n_bucketctl() {\n    local -a commands profiles\n    commands=("@;
    let z2 = ")\n    profiles=("@;
    let z3 = ")\n\n    if (( CURRENT == 2 )); then\n        _describe 'command/profile' commands profiles\n        return\n    fi\n\n    case $words[2] in\n        ls|mkdir|put|get|rm|cd)\n            _files\n            ;;\n    esac\n}\n\n_bucketctl \"$@\"\n"@;
    let zd = "_describe 'command/profile' commands profiles"@;
    let z3a = ")\n\n    if (( CURRENT == 2 )); then\n        "@;
    let z3b = "\n        return\n    fi\n\n    case $words[2] in\n        ls|mkdir|put|get|rm|cd)\n            _files\n            ;;\n    esac\n}\n\n_bucketctl \"$@\"\n"@;
    let b1 = "_bucketctl_completion() {\n    local cur prev words cword\n    _init_completion || return\n\n    local commands=\""@;
    let b2 = "\"\n    local profiles=("@;
    let b3 = ")\n\n    if (( cword == 1 )); then\n        COMPREPLY=( $(compgen -W \"$commands ${profiles[@]}\" -- \"$cur\") )\n        return\n    fi\n\n    case \"${words[1]}\" in\n        ls|mkdir|put|get|rm|cd)\n            COMPREPLY=( $(compgen -f -- \"$cur\") )\n            ;;\n    esac\n}\n\ncomplete -F _bucketctl_completion bucketctl bkt\n"@;
    let bc = "compgen -W \"$commands ${profiles[@]}\""@;
    let b3a = ")\n\n    if (( cword == 1 )); then\n        COMPREPLY=( $("@;
    let b3b = " -- \"$cur\") )\n        return\n    fi\n\n    case \"${words[1]}\" in\n        ls|mkdir|put|get|rm|cd)\n            COMPREPLY=( $(compgen -f -- \"$cur\") )\n            ;;\n    esac\n}\n\ncomplete -F _bucketctl_completion bucketctl bkt\n"@;
    let pz = "profiles=("@;
    let close = ")"@;
    let z2a = ")\n    "@;
    let b2a = "\"\n    local "@;
    reveal_strlit("#compdef bucketctl bkt\n\n_bucketctl() {\n    local -a commands profiles\n    commands=(");
    reveal_strlit(")\n    profiles=(");
    reveal_strlit(")\n\n    if (( CURRENT == 2 )); then\n        _describe 'command/profile' commands profiles\n        return\n    fi\n\n    case $words[2] in\n        ls|mkdir|put|get|rm|cd)\n            _files\n            ;;\n    esac\n}\n\n_bucketctl \"$@\"\n");
    reveal_strlit("_describe 'command/profile' commands profiles");
    reveal_strlit(")\n\n    if (( CURRENT == 2 )); then\n        ");
    reveal_strlit("\n        return\n    fi\n\n    case $words[2] in\n        ls|mkdir|put|get|rm|cd)\n            _files\n            ;;\n    esac\n}\n\n_bucketctl \"$@\"\n");
    reveal_strlit("_bucketctl_completion() {\n    local cur prev words cword\n    _init_completion || return\n\n    local commands=\"");
    reveal_strlit("\"\n    local profiles=(");
    reveal_strlit(")\n\n    if (( cword == 1 )); then\n        COMPREPLY=( $(compgen -W \"$commands ${profiles[@]}\" -- \"$cur\") )\n        return\n    fi\n\n    case \"${words[1]}\" in\n        ls|mkdir|put|get|rm|cd)\n            COMPREPLY=( $(compgen -f -- \"$cur\") )\n            ;;\n    esac\n}\n\ncomplete -F _bucketctl_completion bucketctl bkt\n");
    reveal_strlit("compgen -W \"$commands ${profiles[@]}\"");
    reveal_strlit(")\n\n    if (( cword == 1 )); then\n        COMPREPLY=( $(");
    reveal_strlit(" -- \"$cur\") )\n        return\n    fi\n\n    case \"${words[1]}\" in\n        ls|mkdir|put|get|rm|cd)\n            COMPREPLY=( $(compgen -f -- \"$cur\") )\n            ;;\n    esac\n}\n\ncomplete -F _bucketctl_completion bucketctl bkt\n");
    reveal_strlit("profiles=(");
    reveal_strlit(")");
    reveal_strlit(")\n    ");
    reveal_strlit("\"\n    local ");
    let zs = spec_zsh_script(profiles);
    let bs = spec_bash_script(profiles);
    assert(zs == z1 + commands_line() + z2 + zq + z3);
    assert(bs == b1 + commands_line() + b2 + bq + b3);
    // zsh: the first-word `_describe`
    assert(z3 =~= z3a + zd + z3b);
    assert(zs =~= (z1 + commands_line() + z2 + zq + z3a) + zd + z3b);
    lemma_contains_middle(z1 + commands_line() + z2 + zq + z3a, zd, z3b);
    // zsh: the profiles array
    assert(z2 =~= z2a + pz);
    assert(z3 =~= close + z3.skip(1));
    assert(zs =~= (z1 + commands_line() + z2a) + (pz + zq + close) + z3.skip(1));
    lemma_contains_middle(z1 + commands_line() + z2a, pz + zq + close, z3.skip(1));
    // bash: the first-word `compgen`
    assert(b3 =~= b3a + bc + b3b);
    assert(bs =~= (b1 + commands_line() + b2 + bq + b3a) + bc + b3b);
    lemma_contains_middle(b1 + commands_line() + b2 + bq + b3a, bc, b3b);
    // bash: the profiles array
    assert(b2 =~= b2a + pz);
    assert(b3 =~= close + b3.skip(1));
    assert(bs =~= (b1 + commands_line() + b2a) + (pz + bq + close) + b3.skip(1));
    lemma_contains_middle(b1 + commands_line() + b2a, pz + bq + close, b3.skip(1));
    // each name
    assert forall|k: int| 0 <= k < profiles.len() implies {
        &&& contains_text(zs, seq!['\''] + #[trigger] profiles[k] + seq!['\''])
        &&& contains_text(bs, seq!['"'] + profiles[k] + seq!['"'])
        &&& contains_text(spec_fish_script(profiles), fish_line(profiles[k]))
    } by {
        lemma_join_contains(quoted(profiles, '\''), ' ', k);
        lemma_join_contains(quoted(profiles, '"'), ' ', k);
        assert(zs =~= (z1 + commands_line() + z2) + zq + z3);
        lemma_contains_middle(z1 + commands_line() + z2, zq, z3);
        lemma_contains_trans(zs, zq, seq!['\''] + profiles[k] + seq!['\'']);
        assert(bs =~= (b1 + commands_line() + b2) + bq + b3);
        lemma_contains_middle(b1 + commands_line() + b2, bq, b3);
        lemma_contains_trans(bs, bq, seq!['"'] + profiles[k] + seq!['"']);
        let f0 = "complete -c bucketctl -c bkt\n"@ + fish_lines(command_list());
        let f1 = "complete -c bucketctl -c bkt -n '__fish_seen_subcommand_from ls mkdir put get rm cd' -f\n"@;
        lemma_fish_lines_contain(profiles, k);
        lemma_contains_middle(f0, fish_lines(profiles), f1);
        assert(spec_fish_script(profiles) =~= f0 + fish_lines(profiles) + f1);
        lemma_contains_trans(spec_fish_script(profiles), fish_lines(profiles), fish_line(profiles[k]));
    }
}

/// The profile names, each between quotes `q`, joined by spaces.
fn push_quoted_words(out: &mut Vec<char>, profiles: &[String], q: char)
    ensures
        final(out)@ == old(out)@ + quoted_words(strings_view(profiles@), q),
{
    let ghost names = strings_view(profiles@);
    let ghost start = out@;
    let mut i: usize = 0;
    proof {
        assert(quoted(names.take(0), q) =~= Seq::<Seq<char>>::empty());
        assert(out@ =~= start + quoted_words(names.take(0), q));
    }
    while i < profiles.len()
        invariant
            i <= profiles@.len(),
            names == strings_view(profiles@),
            out@ == start + quoted_words(names.take(i as int), q),
        decreases profiles@.len() - i,
    {
        let ghost before = out@;
        if i > 0 {
            out.push(' ');
        }
        out.push(q);
        push_str(out, profiles[i].as_str());
        out.push(q);
        proof {
            let w = seq![q] + names[i as int] + seq![q];
            assert(quoted(names.take(i + 1), q) =~= quoted(names.take(i as int), q).push(w));
            if i == 0 {
                assert(quoted(names.take(1), q) =~= seq![w]);
                assert(out@ =~= before + w);
            } else {
                lemma_join_push(quoted(names.take(i as int), q), w, ' ');
                assert(out@ =~= before.push(' ') + w);
            }
        }
        i = i + 1;
    }
    proof {
        assert(names.take(profiles@.len() as int) =~= names);
    }
}

/// The bash completion script.
pub fn bash_script(profiles: &[String]) -> (r: String)
    ensures
        r@ == spec_bash_script(strings_view(profiles@)),
{
    let mut out: Vec<char> = Vec::new();
    push_str(
        &mut out,
        "_bucketctl_completion() {\n    local cur prev words cword\n    _init_completion || return\n\n    local commands=\"",
    );
    push_str(&mut out, "help ls cd pwd mkdir put get rm exit completion config");
    push_str(&mut out, "\"\n    local profiles=(");
    push_quoted_words(&mut out, profiles, '"');
    push_str(
        &mut out,
        ")\n\n    if (( cword == 1 )); then\n        COMPREPLY=( $(compgen -W \"$commands ${profiles[@]}\" -- \"$cur\") )\n        return\n    fi\n\n    case \"${words[1]}\" in\n        ls|mkdir|put|get|rm|cd)\n            COMPREPLY=( $(compgen -f -- \"$cur\") )\n            ;;\n    esac\n}\n\ncomplete -F _bucketctl_completion bucketctl bkt\n",
    );
    from_chars(&out)
}

/// The zsh completion script.
pub fn zsh_script(profiles: &[String]) -> (r: String)
    ensures
        r@ == spec_zsh_script(strings_view(profiles@)),
{
    let mut out: Vec<char> = Vec::new();
    push_str(
        &mut out,
        "#compdef bucketctl bkt\n\n_bucketctl() {\n    local -a commands profiles\n    commands=(",
    );
    push_str(&mut out, "help ls cd pwd mkdir put get rm exit completion config");
    push_str(&mut out, ")\n    profiles=(");
    push_quoted_words(&mut out, profiles, '\'');
    push_str(
        &mut out,
        ")\n\n    if (( CURRENT == 2 )); then\n        _describe 'command/profile' commands profiles\n        return\n    fi\n\n    case $words[2] in\n        ls|mkdir|put|get|rm|cd)\n            _files\n            ;;\n    esac\n}\n\n_bucketctl \"$@\"\n",
    );
    from_chars(&out)
}

/// Appends the fish lines offering each of `words`.
fn push_fish_lines(out: &mut Vec<char>, words: &[String])
    ensures
        final(out)@ == old(out)@ + fish_lines(strings_view(words@)),
{
    let ghost ws = strings_view(words@);
    let ghost start = out@;
    let mut i: usize = 0;
    proof {
        assert(ws.take(0) =~= Seq::<Seq<char>>::empty());
        assert(out@ =~= start + fish_lines(ws.take(0)));
    }
    while i < words.len()
        invariant
            i <= words@.len(),
            ws == strings_view(words@),
            out@ == start + fish_lines(ws.take(i as int)),
        decreases words@.len() - i,
    {
        let ghost before = out@;
        push_str(out, "complete -c bucketctl -c bkt -n '__fish_use_subcommand' -a '");
        push_str(out, words[i].as_str());
        push_str(out, "'\n");
        proof {
            assert(ws.take(i + 1).drop_last() =~= ws.take(i as int));
            assert(out@ =~= before + fish_line(ws[i as int]));
        }
        i = i + 1;
    }
    proof {
        assert(ws.take(words@.len() as int) =~= ws);
    }
}

/// The fish completion script.
pub fn fish_script(profiles: &[String]) -> (r: String)
    ensures
        r@ == spec_fish_script(strings_view(profiles@)),
{
    let commands: Vec<String> = vec![
        "help".to_owned(),
        "ls".to_owned(),
        "cd".to_owned(),
        "pwd".to_owned(),
        "mkdir".to_owned(),
        "put".to_owned(),
        "get".to_owned(),
        "rm".to_owned(),
        "exit".to_owned(),
        "completion".to_owned(),
        "config".to_owned(),
    ];
    proof {
        assert(strings_view(commands@) =~= command_list());
    }
    let mut out: Vec<char> = Vec::new();
    push_str(&mut out, "complete -c bucketctl -c bkt\n");
    push_fish_lines(&mut out, commands.as_slice());
    push_fish_lines(&mut out, profiles);
    push_str(
        &mut out,
        "complete -c bucketctl -c bkt -n '__fish_seen_subcommand_from ls mkdir put get rm cd' -f\n",
    );
    from_chars(&out)
}

/// The completion script for `shell` (`bash`, `zsh` or `fish`), offering
/// the profile names.
pub fn completion_script(shell: &str, profiles: &[String]) -> (r: Result<String, Error>)
    ensures
        shell@ == "bash"@ ==> (r matches Ok(s) && s@ == spec_bash_script(strings_view(profiles@))),
        shell@ == "zsh"@ ==> (r matches Ok(s) && s@ == spec_zsh_script(strings_view(profiles@))),
        shell@ == "fish"@ ==> (r matches Ok(s) && s@ == spec_fish_script(strings_view(profiles@))),
        shell@ != "bash"@ && shell@ != "zsh"@ && shell@ != "fish"@ ==> (r matches Err(e) && e@
            == ErrorModel::UnsupportedShell(shell@)),
{
    proof {
        reveal_strlit("bash");
        reveal_strlit("zsh");
        reveal_strlit("fish");
        assert("zsh"@.len() == 3 && "bash"@.len() == 4 && "fish"@.len() == 4);
        assert("fish"@[0] != "bash"@[0]);
    }
    let s = to_chars(shell);
    if chars_eq_str(&s, "bash") {
        Ok(bash_script(profiles))
    } else if chars_eq_str(&s, "zsh") {
        Ok(zsh_script(profiles))
    } else if chars_eq_str(&s, "fish") {
        Ok(fish_script(profiles))
    } else {
        Err(Error::UnsupportedShell(shell.to_owned()))
    }
}

} // verus!
