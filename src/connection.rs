use vstd::prelude::*;

verus! {

/// The flags and environment settings that point one invocation of the tool at a
/// server, user and workspace.
#[derive(Debug, Clone)]
pub struct ConnectionOverlay {
    /// Flags to put before the command's own arguments.
    pub args: Vec<String>,
    /// Environment variables to set, in order; an empty value clears a variable.
    pub env: Vec<(String, String)>,
}

pub open spec fn given(o: Option<Seq<char>>) -> bool {
    o matches Some(s) && s.len() > 0
}

pub open spec fn flag_pair(flag: Seq<char>, o: Option<Seq<char>>) -> Seq<Seq<char>> {
    if given(o) {
        seq![flag, o->Some_0]
    } else {
        Seq::empty()
    }
}

pub open spec fn env_pair(var: Seq<char>, o: Option<Seq<char>>) -> Seq<(Seq<char>, Seq<char>)> {
    if given(o) {
        seq![(var, o->Some_0)]
    } else {
        Seq::empty()
    }
}

/// The flags: `-p`, `-u`, `-c` each with its value, for each value given.
pub open spec fn overlay_args(
    server: Option<Seq<char>>,
    user: Option<Seq<char>>,
    client: Option<Seq<char>>,
) -> Seq<Seq<char>> {
    flag_pair("-p"@, server) + flag_pair("-u"@, user) + flag_pair("-c"@, client)
}

/// The environment: where any value is given, the config-file and root hints cleared
/// first; then `P4PORT`, `P4USER`, `P4CLIENT` for each value given.
pub open spec fn overlay_env(
    server: Option<Seq<char>>,
    user: Option<Seq<char>>,
    client: Option<Seq<char>>,
) -> Seq<(Seq<char>, Seq<char>)> {
    (if given(server) || given(user) || given(client) {
        seq![("P4CONFIG"@, ""@), ("P4ROOT"@, ""@)]
    } else {
        Seq::empty()
    }) + env_pair("P4PORT"@, server) + env_pair("P4USER"@, user) + env_pair("P4CLIENT"@, client)
}

pub open spec fn env_view(env: Seq<(String, String)>) -> Seq<(Seq<char>, Seq<char>)> {
    env.map_values(|p: (String, String)| (p.0@, p.1@))
}

pub open spec fn args_view(args: Seq<String>) -> Seq<Seq<char>> {
    args.map_values(|a: String| a@)
}

fn is_given(o: &Option<String>) -> (r: bool)
    ensures
        r == given(o.deep_view()),
{
    match o {
        Some(s) => !s.as_str().is_empty(),
        None => false,
    }
}

fn add_setting(
    args: &mut Vec<String>,
    env: &mut Vec<(String, String)>,
    flag: &str,
    var: &str,
    o: &Option<String>,
)
    ensures
        args_view(final(args)@) == args_view(old(args)@) + flag_pair(flag@, o.deep_view()),
        env_view(final(env)@) == env_view(old(env)@) + env_pair(var@, o.deep_view()),
{
    if is_given(o) {
        match o {
            Some(v) => {
                args.push(flag.to_owned());
                args.push(v.clone());
                env.push((var.to_owned(), v.clone()));
            },
            None => {},
        }
    }
    assert(args_view(args@) =~= args_view(old(args)@) + flag_pair(flag@, o.deep_view()));
    assert(env_view(env@) =~= env_view(old(env)@) + env_pair(var@, o.deep_view()));
}

/// The flags and environment that run the tool against the given server, user and
/// workspace, whatever the ambient configuration holds; with none given, nothing.
pub fn connection_overlay(
    server: &Option<String>,
    user: &Option<String>,
    client: &Option<String>,
) -> (r: ConnectionOverlay)
    ensures
        args_view(r.args@) == overlay_args(server.deep_view(), user.deep_view(), client.deep_view()),
        env_view(r.env@) == overlay_env(server.deep_view(), user.deep_view(), client.deep_view()),
{
    let mut args: Vec<String> = Vec::new();
    let mut env: Vec<(String, String)> = Vec::new();
    if is_given(server) || is_given(user) || is_given(client) {
        env.push(("P4CONFIG".to_owned(), "".to_owned()));
        env.push(("P4ROOT".to_owned(), "".to_owned()));
    }
    assert(args_view(args@) =~= Seq::empty());
    add_setting(&mut args, &mut env, "-p", "P4PORT", server);
    add_setting(&mut args, &mut env, "-u", "P4USER", user);
    add_setting(&mut args, &mut env, "-c", "P4CLIENT", client);
    proof {
        let s = server.deep_view();
        let u = user.deep_view();
        let c = client.deep_view();
        let head: Seq<(Seq<char>, Seq<char>)> = if given(s) || given(u) || given(c) {
            seq![("P4CONFIG"@, ""@), ("P4ROOT"@, ""@)]
        } else {
            Seq::empty()
        };
        assert(env_view(env@) =~= head + env_pair("P4PORT"@, s) + env_pair("P4USER"@, u)
            + env_pair("P4CLIENT"@, c));
        assert(args_view(args@) =~= overlay_args(s, u, c));
    }
    ConnectionOverlay { args, env }
}

/// With any of server, user or workspace given, the overlay clears the two ambient
/// configuration hints, sets the variable and the flag of each value given to that
/// value, and names neither variable nor flag for a value not given.
pub proof fn lemma_connection_isolation(
    server: Option<Seq<char>>,
    user: Option<Seq<char>>,
    client: Option<Seq<char>>,
)
    requires
        given(server) || given(user) || given(client),
    ensures
        overlay_env(server, user, client)[0] == ("P4CONFIG"@, ""@),
        overlay_env(server, user, client)[1] == ("P4ROOT"@, ""@),
        given(server) ==> overlay_env(server, user, client).contains(("P4PORT"@, server->Some_0)),
        given(user) ==> overlay_env(server, user, client).contains(("P4USER"@, user->Some_0)),
        given(client) ==> overlay_env(server, user, client).contains(("P4CLIENT"@, client->Some_0)),
        !given(server) ==> forall|i: int|
            0 <= i < overlay_env(server, user, client).len() ==> (#[trigger] overlay_env(
                server,
                user,
                client,
            )[i]).0 != "P4PORT"@,
        !given(user) ==> forall|i: int|
            0 <= i < overlay_env(server, user, client).len() ==> (#[trigger] overlay_env(
                server,
                user,
                client,
            )[i]).0 != "P4USER"@,
        !given(client) ==> forall|i: int|
            0 <= i < overlay_env(server, user, client).len() ==> (#[trigger] overlay_env(
                server,
                user,
                client,
            )[i]).0 != "P4CLIENT"@,
        overlay_args(server, user, client).len() == (if given(server) {
            2int
        } else {
            0
        }) + (if given(user) {
            2int
        } else {
            0
        }) + (if given(client) {
            2int
        } else {
            0
        }),
        given(server) ==> overlay_args(server, user, client).take(2) == seq!["-p"@, server->Some_0],
{
    reveal_strlit("P4CONFIG");
    reveal_strlit("P4ROOT");
    reveal_strlit("P4PORT");
    reveal_strlit("P4USER");
    reveal_strlit("P4CLIENT");
    let env = overlay_env(server, user, client);
    let head = seq![("P4CONFIG"@, ""@), ("P4ROOT"@, ""@)];
    let p = env_pair("P4PORT"@, server);
    let u = env_pair("P4USER"@, user);
    let c = env_pair("P4CLIENT"@, client);
    assert(env == head + p + u + c);
    if given(server) {
        assert(env[2] == ("P4PORT"@, server->Some_0));
    }
    if given(user) {
        assert(env[2 + p.len() as int] == ("P4USER"@, user->Some_0));
    }
    if given(client) {
        assert(env[2 + p.len() as int + u.len() as int] == ("P4CLIENT"@, client->Some_0));
    }
    let names: Seq<Seq<char>> = seq!["P4CONFIG"@, "P4ROOT"@, "P4PORT"@, "P4USER"@, "P4CLIENT"@];
    assert forall|a: int, b: int| 0 <= a < b < 5 implies names[a] != names[b] by {
        if names[a].len() == names[b].len() {
            if names[a].len() == 8 {
                assert(names[a][3] != names[b][3]);
            } else {
                assert(names[a][2] != names[b][2]);
            }
        }
    }
    assert forall|i: int| 0 <= i < env.len() implies (env[i].0 == names[0] || env[i].0 == names[1]
        || (env[i].0 == names[2] && given(server)) || (env[i].0 == names[3] && given(user)) || (
    env[i].0 == names[4] && given(client))) by {
        if i >= 2 + p.len() + u.len() {
            assert(env[i] == c[i - 2 - p.len() - u.len()]);
        } else if i >= 2 + p.len() {
            assert(env[i] == u[i - 2 - p.len()]);
        } else if i >= 2 {
            assert(env[i] == p[i - 2]);
        }
    }
    let args = overlay_args(server, user, client);
    if given(server) {
        assert(args.take(2) =~= seq!["-p"@, server->Some_0]);
    }
}

/// Whatever is given: each value given stands among the flags right after its own flag
/// (`-p`, `-u`, `-c`), and the flags, which stand at the even positions, name only
/// values that are given.
pub proof fn lemma_connection_flags(
    server: Option<Seq<char>>,
    user: Option<Seq<char>>,
    client: Option<Seq<char>>,
)
    ensures
        given(server) ==> exists|i: int|
            0 <= i && i + 1 < overlay_args(server, user, client).len()
                && #[trigger] overlay_args(server, user, client)[i] == "-p"@
                && overlay_args(server, user, client)[i + 1] == server->Some_0,
        given(user) ==> exists|i: int|
            0 <= i && i + 1 < overlay_args(server, user, client).len()
                && #[trigger] overlay_args(server, user, client)[i] == "-u"@
                && overlay_args(server, user, client)[i + 1] == user->Some_0,
        given(client) ==> exists|i: int|
            0 <= i && i + 1 < overlay_args(server, user, client).len()
                && #[trigger] overlay_args(server, user, client)[i] == "-c"@
                && overlay_args(server, user, client)[i + 1] == client->Some_0,
        forall|i: int|
            0 <= i < overlay_args(server, user, client).len() && i % 2 == 0 ==> {
                let f = #[trigger] overlay_args(server, user, client)[i];
                (f == "-p"@ && given(server)) || (f == "-u"@ && given(user)) || (f == "-c"@
                    && given(client))
            },
        !given(server) ==> forall|i: int|
            0 <= i < overlay_args(server, user, client).len() && i % 2 == 0
                ==> #[trigger] overlay_args(server, user, client)[i] != "-p"@,
        !given(user) ==> forall|i: int|
            0 <= i < overlay_args(server, user, client).len() && i % 2 == 0
                ==> #[trigger] overlay_args(server, user, client)[i] != "-u"@,
        !given(client) ==> forall|i: int|
            0 <= i < overlay_args(server, user, client).len() && i % 2 == 0
                ==> #[trigger] overlay_args(server, user, client)[i] != "-c"@,
        given(server) ==> overlay_env(server, user, client).contains(("P4PORT"@, server->Some_0)),
        given(user) ==> overlay_env(server, user, client).contains(("P4USER"@, user->Some_0)),
        given(client) ==> overlay_env(server, user, client).contains(("P4CLIENT"@, client->Some_0)),
        !given(server) ==> forall|i: int|
            0 <= i < overlay_env(server, user, client).len() ==> (#[trigger] overlay_env(
                server,
                user,
                client,
            )[i]).0 != "P4PORT"@,
        !given(user) ==> forall|i: int|
            0 <= i < overlay_env(server, user, client).len() ==> (#[trigger] overlay_env(
                server,
                user,
                client,
            )[i]).0 != "P4USER"@,
        !given(client) ==> forall|i: int|
            0 <= i < overlay_env(server, user, client).len() ==> (#[trigger] overlay_env(
                server,
                user,
                client,
            )[i]).0 != "P4CLIENT"@,
{
    if given(server) || given(user) || given(client) {
        lemma_connection_isolation(server, user, client);
    } else {
        assert(overlay_env(server, user, client) =~= Seq::<(Seq<char>, Seq<char>)>::empty());
    }
    reveal_strlit("-p");
    reveal_strlit("-u");
    reveal_strlit("-c");
    assert("-p"@[1] != "-u"@[1] && "-p"@[1] != "-c"@[1] && "-u"@[1] != "-c"@[1]);
    let fp = flag_pair("-p"@, server);
    let fu = flag_pair("-u"@, user);
    let fc = flag_pair("-c"@, client);
    let lp = fp.len() as int;
    let lu = fu.len() as int;
    let args = overlay_args(server, user, client);
    assert(args == fp + fu + fc);
    if given(server) {
        assert(args[0] == "-p"@ && args[1] == server->Some_0);
    }
    if given(user) {
        assert(args[lp] == "-u"@ && args[lp + 1] == user->Some_0);
    }
    if given(client) {
        assert(args[lp + lu] == "-c"@ && args[lp + lu + 1] == client->Some_0);
    }
    assert forall|i: int| 0 <= i < args.len() && i % 2 == 0 implies {
        let f = #[trigger] args[i];
        (f == "-p"@ && given(server)) || (f == "-u"@ && given(user)) || (f == "-c"@ && given(client))
    } by {
        if i < lp {
            assert(i == 0);
            assert(args[i] == fp[i]);
        } else if i < lp + lu {
            assert(i == lp);
            assert(args[i] == fu[i - lp]);
        } else {
            assert(i == lp + lu);
            assert(args[i] == fc[i - lp - lu]);
        }
    }
}

} // verus!
