//! The zsh completion script: the generated script, made to ask the
//! program itself for task names.

use vstd::prelude::*;
use crate::text::{
    contains, contains_text, replace_all, replace_first, replaced_all, replaced_first,
};

verus! {

pub const REGISTRATION: &'static str = r#"if [ "$funcstack[1]" = "_rhask" ]; then
    _rhask "$@"
else
    compdef _rhask rhask
fi
"#;

pub const DYNAMIC_COMPLETIONS: &'static str = r#"

__rhask_dynamic_tasks() {
    local prefix="$1"
    local file=""
    local total=${#words[@]}
    local idx=2
    local expect_value=0
    while (( idx <= total )); do
        local token="${words[idx]}"
        if (( expect_value )); then
            expect_value=0
            file="$token"
            ((idx++))
            continue
        fi
        case "$token" in
            -f|--file)
                expect_value=1
                ;;
        esac
        ((idx++))
    done
    local -a cmd
    cmd=("rhask")
    if [[ -n "$file" ]]; then
        cmd+=("--file" "$file")
    fi
    cmd+=("complete-tasks" "$prefix")
    "${cmd[@]}" 2>/dev/null
}

_rhask() {
    local cur="${words[CURRENT]}"
    local idx=2
    local total=${#words[@]}
    local expect_value=0
    local first_idx=0
    local found_first=0
    while (( idx <= total )); do
        local token="${words[idx]}"
        if (( expect_value )); then
            expect_value=0
            ((idx++))
            continue
        fi
        case "$token" in
            --)
                first_idx=$((idx + 1))
                found_first=1
                break
                ;;
            -f|--file)
                expect_value=1
                ;;
            -*)
                ;;
            *)
                first_idx=$idx
                found_first=1
                break
                ;;
        esac
        ((idx++))
    done
    if (( found_first == 0 )); then
        first_idx=$((CURRENT))
    fi

    local handled=0
    if (( CURRENT == first_idx )); then
        case "$cur" in
            ""|-*|list|run|completions)
                ;;
            *)
                local -a dynamic described
                local candidate
                local __rhask_prev_insert __rhask_prev_list
                dynamic=( ${(f)"$(__rhask_dynamic_tasks "$cur")"} )
                if (( ${#dynamic[@]} )); then
                    described=()
                    for candidate in "${dynamic[@]}"; do
                        described+=("$candidate:task/group")
                    done
                    if (( ${#dynamic[@]} > 1 )); then
                        __rhask_prev_insert="$compstate[insert]"
                        __rhask_prev_list="$compstate[list]"
                        compstate[insert]=''
                        compstate[list]='list'
                        _describe -t rhask-tasks 'task or group' described && handled=1
                        compstate[insert]="$__rhask_prev_insert"
                        compstate[list]="$__rhask_prev_list"
                    else
                        _describe -t rhask-tasks 'task or group' described && handled=1
                    fi
                fi
                ;;
        esac
    elif (( first_idx > 0 )) && [[ "${words[first_idx]}" = run ]] && (( CURRENT == first_idx + 1 )); then
        local -a dynamic described
        local candidate
        local __rhask_prev_insert __rhask_prev_list
        dynamic=( ${(f)"$(__rhask_dynamic_tasks "$cur")"} )
        if (( ${#dynamic[@]} )); then
            described=()
            for candidate in "${dynamic[@]}"; do
                described+=("$candidate:task/group")
            done
            if (( ${#dynamic[@]} > 1 )); then
                __rhask_prev_insert="$compstate[insert]"
                __rhask_prev_list="$compstate[list]"
                compstate[insert]=''
                compstate[list]='list'
                _describe -t rhask-run-tasks 'task or group' described && handled=1
                compstate[insert]="$__rhask_prev_insert"
                compstate[list]="$__rhask_prev_list"
            else
                _describe -t rhask-run-tasks 'task or group' described && handled=1
            fi
        fi
    fi

    if (( handled )); then
        return 0
    fi

    __rhask_base "$@"
}

if [ "$funcstack[1]" = "_rhask" ]; then
    _rhask "$@"
else
    compdef _rhask rhask
fi
"#;

/// The generated script `script`, patched: where it defines `_rhask()`, the
/// first `_rhask()` is renamed to `__rhask_base()`, the registration of the
/// generated function is taken out wherever it stands, and the dynamic
/// completion with its own registration is appended; any other script is
/// left as it is.
pub open spec fn patched(script: Seq<char>) -> Seq<char> {
    if contains_text(script, "_rhask()"@) {
        replaced_all(
            replaced_first(script, "_rhask()"@, "__rhask_base()"@),
            REGISTRATION@,
            Seq::empty(),
        ) + DYNAMIC_COMPLETIONS@
    } else {
        script
    }
}

/// Patches the generated script: see `patched`.
pub fn patch(script: String) -> (out: String)
    ensures
        out@ == patched(script@),
{
    if contains(script.as_str(), "_rhask()") {
        let renamed = replace_first(script.as_str(), "_rhask()", "__rhask_base()");
        proof {
            reveal_strlit("");
            assert(""@ =~= Seq::<char>::empty());
        }
        let mut out = replace_all(renamed.as_str(), REGISTRATION, "");
        out.append(DYNAMIC_COMPLETIONS);
        out
    } else {
        script
    }
}

} // verus!
