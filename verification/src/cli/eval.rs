//! The fragment that a shell evaluates at start-up: it starts the server
//! where the server's address is this host, tells later commands where the
//! server is, reports every finished command, and binds the reverse search.

use vstd::prelude::*;
use vstd::string::*;
use crate::text::replace;
use crate::text::replace_all;
use crate::util::decimal_text;
use crate::util::to_decimal;

verus! {

/// The fragment, with marks where the program's path, the server's address,
/// this host's name and the port go.
pub const EVAL_TEMPLATE: &'static str =
    r#"export __history_server="@history_ADDR@"
__history_session=$(tty); __history_session="${__history_session/\/dev\/pts\//}"
__history() {
    local EXIT="$?"
    printf "%s\0%s\0%s\0%s\0%s" "$__history_session" "@history_HOSTNAME@" "$EXIT" "$(pwd)" "$(command history 1)" > /dev/udp/@history_ADDR@/@HISTORY_PORT@
}

unset -f __history_interactive
__history_interactive() {
    local output
    local code
    IFS=" " read -d '' -r code output < <(__history_mode=isearch __history_pwd=$(pwd) @history_EXE@ 3>&1 1>&2 2>&3)

    # If code="n", then we auto-exec the command as if the user had typed
    # enter, which is what the real ctr-r does
    if [[ "$code" == "n" ]]; then
        # 1. render the prompt
        # 2. run the command
        # 3. add it to the history buffer with command -s, so up-arrow works
        # 4. add it to _our_ history buffer by calling PROMPT_COMMAND
        printf "%s%s\n" "${PS1@P}" "$output"

        stty sane;
        eval "$output"
        command history -s "$output"
        eval "$PROMPT_COMMAND"
        [[ "$PS1" == "\n"* ]] && printf "\n"
        READLINE_LINE=""
        READLINE_POINT=0
    elif [[ "$code" == "a" ]]; then
        READLINE_LINE=${output}
        READLINE_POINT=0
    else
        READLINE_LINE=${output}
        READLINE_POINT=${#output}
    fi
}
[[ ${SHELLOPTS} =~ (vi|emacs) ]] &&  bind -x '"\C-r": __history_interactive'

if [[ -z "$PROMPT_COMMAND" ]]; then
    PROMPT_COMMAND="__history"
elif [[ "$PROMPT_COMMAND" != *"__history"* ]]; then
    PROMPT_COMMAND="$PROMPT_COMMAND; __history";
fi

history() {
    if [[ $(command caller) == *"/etc/bashrc" ]]; then
        command history "$@"
    else
    __history_pwd=$(pwd) @history_EXE@ "$@"
    fi
}
"#;

/// The line that starts the server as a daemon on the user's database.
pub open spec fn launch_text(exe: Seq<char>) -> Seq<char> {
    "__history_mode=\"server\" "@ + exe + " --daemonize $HOME/.histdb.db"@
}

/// The fragment for a program at `exe`, a server at `addr`, on the host
/// `hostname`, with the service port `port`: the marks are replaced one
/// after another, the program's path first, then the address, the host's
/// name and the port.
pub open spec fn script_text(
    exe: Seq<char>,
    addr: Seq<char>,
    hostname: Seq<char>,
    port: u16,
) -> Seq<char> {
    replace_all(
        replace_all(
            replace_all(replace_all(EVAL_TEMPLATE@, "@history_EXE@"@, exe), "@history_ADDR@"@, addr),
            "@history_HOSTNAME@"@,
            hostname,
        ),
        "@HISTORY_PORT@"@,
        decimal_text(port as nat),
    )
}

/// What the shell is given to evaluate: the line that starts the server,
/// where the server's address leads back to this host, and then the
/// fragment, each ended by a line feed.
pub open spec fn eval_text(
    exe: Seq<char>,
    addr: Seq<char>,
    hostname: Seq<char>,
    port: u16,
    routes_to_me: bool,
) -> Seq<char> {
    (if routes_to_me {
        launch_text(exe) + "\n"@
    } else {
        Seq::<char>::empty()
    }) + script_text(exe, addr, hostname, port) + "\n"@
}

/// The line that starts the server.
pub fn launch_line(exe: &str) -> (line: String)
    ensures
        line@ == launch_text(exe@),
{
    String::from_str("__history_mode=\"server\" ").concat(exe).concat(
        " --daemonize $HOME/.histdb.db",
    )
}

/// The fragment with its marks replaced.
pub fn eval_script(exe: &str, addr: &str, hostname: &str, port: u16) -> (script: String)
    ensures
        script@ == script_text(exe@, addr@, hostname@, port),
{
    let with_exe = replace(EVAL_TEMPLATE, "@history_EXE@", exe);
    let with_addr = replace(with_exe.as_str(), "@history_ADDR@", addr);
    let with_host = replace(with_addr.as_str(), "@history_HOSTNAME@", hostname);
    replace(with_host.as_str(), "@HISTORY_PORT@", to_decimal(port as u64).as_str())
}

/// What `--eval` prints for the shell to evaluate.
pub fn bash_eval_string(exe: &str, addr: &str, hostname: &str, port: u16, routes_to_me: bool) -> (out:
    String)
    ensures
        out@ == eval_text(exe@, addr@, hostname@, port, routes_to_me),
{
    let mut out = String::new();
    if routes_to_me {
        out.append(launch_line(exe).as_str());
        out.append("\n");
        assert(out@ =~= launch_text(exe@) + "\n"@);
    }
    out.append(eval_script(exe, addr, hostname, port).as_str());
    out.append("\n");
    out
}

} // verus!
