use vstd::prelude::*;
use vstd::string::StrSliceExecFns;
use vstd::string::StringExecFns;

use crate::compose::services_val;
use crate::compose::Compose;
use crate::compose::Port;
use crate::compose::Service;
use crate::compose::ServiceV;
use crate::compose::Version;

verus! {

pub open spec fn hex_char(d: int) -> char {
    if d == 0 {
        '0'
    } else if d == 1 {
        '1'
    } else if d == 2 {
        '2'
    } else if d == 3 {
        '3'
    } else if d == 4 {
        '4'
    } else if d == 5 {
        '5'
    } else if d == 6 {
        '6'
    } else if d == 7 {
        '7'
    } else if d == 8 {
        '8'
    } else if d == 9 {
        '9'
    } else if d == 10 {
        'a'
    } else if d == 11 {
        'b'
    } else if d == 12 {
        'c'
    } else if d == 13 {
        'd'
    } else if d == 14 {
        'e'
    } else {
        'f'
    }
}

/// How one character is written inside a double-quoted scalar: the
/// quote, the backslash and the line controls get their short escapes;
/// every other control character gets a two-digit hex escape, since a
/// raw control character inside a quoted scalar is not valid YAML.
pub open spec fn esc_char(c: char) -> Seq<char> {
    if c == '\\' {
        seq!['\\', '\\']
    } else if c == '"' {
        seq!['\\', '"']
    } else if c == '\n' {
        seq!['\\', 'n']
    } else if c == '\t' {
        seq!['\\', 't']
    } else if c == '\r' {
        seq!['\\', 'r']
    } else if (c as u32) < 0x20 || (c as u32) == 0x7f {
        seq!['\\', 'x', hex_char((c as u32) as int / 16), hex_char((c as u32) as int % 16)]
    } else {
        seq![c]
    }
}

pub open spec fn esc(s: Seq<char>) -> Seq<char>
    decreases s.len(),
{
    if s.len() == 0 {
        Seq::empty()
    } else {
        esc(s.drop_last()) + esc_char(s.last())
    }
}

/// A string scalar as the output writes it: always double-quoted, with
/// every character escaped as `esc_char` says.
pub open spec fn quoted(s: Seq<char>) -> Seq<char> {
    seq!['"'] + esc(s) + seq!['"']
}

pub open spec fn digit_char(d: int) -> char {
    if d == 0 {
        '0'
    } else if d == 1 {
        '1'
    } else if d == 2 {
        '2'
    } else if d == 3 {
        '3'
    } else if d == 4 {
        '4'
    } else if d == 5 {
        '5'
    } else if d == 6 {
        '6'
    } else if d == 7 {
        '7'
    } else if d == 8 {
        '8'
    } else {
        '9'
    }
}

/// A non-negative number in decimal.
pub open spec fn dec_str(n: int) -> Seq<char>
    decreases n,
{
    if n < 10 {
        seq![digit_char(n)]
    } else {
        dec_str(n / 10).push(digit_char(n % 10))
    }
}

/// The lines of a list of string items under a service key.
pub open spec fn str_items(items: Seq<Seq<char>>) -> Seq<char>
    decreases items.len(),
{
    if items.len() == 0 {
        Seq::empty()
    } else {
        str_items(items.drop_last()) + "      - "@ + quoted(items.last()) + "\n"@
    }
}

/// The lines of a list of ports, each in its decimal string form.
pub open spec fn port_items(ports: Seq<u16>) -> Seq<char>
    decreases ports.len(),
{
    if ports.len() == 0 {
        Seq::empty()
    } else {
        port_items(ports.drop_last()) + "      - "@ + quoted(dec_str(ports.last() as int))
            + "\n"@
    }
}

/// The lines of an environment mapping, in insertion order.
pub open spec fn env_items(env: Seq<(Seq<char>, Seq<char>)>) -> Seq<char>
    decreases env.len(),
{
    if env.len() == 0 {
        Seq::empty()
    } else {
        env_items(env.drop_last()) + "      "@ + quoted(env.last().0) + ": "@ + quoted(
            env.last().1,
        ) + "\n"@
    }
}

/// One named service: the image always, then each collection or
/// optional field only where it holds something. A field that is
/// absent or empty is omitted entirely, a present-but-empty list too.
pub open spec fn emit_service(name: Seq<char>, s: ServiceV) -> Seq<char> {
    "  "@ + quoted(name) + ":\n"@ + "    image: "@ + quoted(s.image) + "\n"@ + (if s.ports.len()
        == 0 {
        Seq::empty()
    } else {
        "    ports:\n"@ + port_items(s.ports)
    }) + (if s.depends_on.len() == 0 {
        Seq::empty()
    } else {
        "    depends_on:\n"@ + str_items(s.depends_on)
    }) + (match s.command {
        Some(c) => if c.len() == 0 {
            Seq::empty()
        } else {
            "    command:\n"@ + str_items(c)
        },
        None => Seq::empty(),
    }) + (match s.entrypoint {
        Some(c) => if c.len() == 0 {
            Seq::empty()
        } else {
            "    entrypoint:\n"@ + str_items(c)
        },
        None => Seq::empty(),
    }) + (if s.environment.len() == 0 {
        Seq::empty()
    } else {
        "    environment:\n"@ + env_items(s.environment)
    })
}

pub open spec fn service_items(entries: Seq<(Seq<char>, ServiceV)>) -> Seq<char>
    decreases entries.len(),
{
    if entries.len() == 0 {
        Seq::empty()
    } else {
        service_items(entries.drop_last()) + emit_service(
            entries.last().0,
            entries.last().1,
        )
    }
}

/// The whole output document: the fixed version line, then the services
/// in insertion order, or an explicitly empty mapping.
pub open spec fn spec_compose_yaml(version: Version, services: Seq<(Seq<char>, ServiceV)>) -> Seq<
    char,
> {
    (match version {
        Version::V2 => "version: \"3.8\"\n"@,
    }) + (if services.len() == 0 {
        "services: {}\n"@
    } else {
        "services:\n"@ + service_items(services)
    })
}

/// Relies on `String::push`: it appends the given character to the end
/// of the string.
#[verifier::external_body]
fn push_char(buf: &mut String, c: char)
    ensures
        final(buf)@ == old(buf)@.push(c),
{
    buf.push(c);
}

fn hex_digit(d: u32) -> (c: char)
    requires
        d < 16,
    ensures
        c == hex_char(d as int),
{
    match d {
        0 => '0',
        1 => '1',
        2 => '2',
        3 => '3',
        4 => '4',
        5 => '5',
        6 => '6',
        7 => '7',
        8 => '8',
        9 => '9',
        10 => 'a',
        11 => 'b',
        12 => 'c',
        13 => 'd',
        14 => 'e',
        _ => 'f',
    }
}

fn push_quoted(buf: &mut String, s: &str)
    ensures
        final(buf)@ == old(buf)@ + quoted(s@),
{
    let ghost b0 = buf@;
    push_char(buf, '"');
    let n = s.unicode_len();
    proof {
        assert(s@.take(0) =~= Seq::<char>::empty());
        assert(buf@ =~= b0 + seq!['"'] + esc(s@.take(0)));
    }
    for i in 0..n
        invariant
            n == s@.len(),
            buf@ == b0 + seq!['"'] + esc(s@.take(i as int)),
    {
        let c = s.get_char(i);
        let ghost before = buf@;
        if c == '\\' {
            push_char(buf, '\\');
            push_char(buf, '\\');
        } else if c == '"' {
            push_char(buf, '\\');
            push_char(buf, '"');
        } else if c == '\n' {
            push_char(buf, '\\');
            push_char(buf, 'n');
        } else if c == '\t' {
            push_char(buf, '\\');
            push_char(buf, 't');
        } else if c == '\r' {
            push_char(buf, '\\');
            push_char(buf, 'r');
        } else if (c as u32) < 0x20 || (c as u32) == 0x7f {
            let code = c as u32;
            push_char(buf, '\\');
            push_char(buf, 'x');
            push_char(buf, hex_digit(code / 16));
            push_char(buf, hex_digit(code % 16));
        } else {
            push_char(buf, c);
        }
        proof {
            assert(buf@ =~= before + esc_char(c));
            assert(s@.take(i as int + 1).drop_last() =~= s@.take(i as int));
            assert(s@.take(i as int + 1).last() == s@[i as int]);
            assert(buf@ =~= b0 + seq!['"'] + esc(s@.take(i as int + 1)));
        }
    }
    push_char(buf, '"');
    proof {
        assert(s@.take(n as int) =~= s@);
        assert(buf@ =~= b0 + quoted(s@));
    }
}

fn push_port_digits(buf: &mut String, p: u16)
    ensures
        final(buf)@ == old(buf)@ + dec_str(p as int),
    decreases p,
{
    if p < 10 {
        let d: char = match p {
            0 => '0',
            1 => '1',
            2 => '2',
            3 => '3',
            4 => '4',
            5 => '5',
            6 => '6',
            7 => '7',
            8 => '8',
            _ => '9',
        };
        push_char(buf, d);
        proof {
            assert(buf@ =~= old(buf)@ + dec_str(p as int));
        }
    } else {
        push_port_digits(buf, p / 10);
        let rest = p % 10;
        let d: char = match rest {
            0 => '0',
            1 => '1',
            2 => '2',
            3 => '3',
            4 => '4',
            5 => '5',
            6 => '6',
            7 => '7',
            8 => '8',
            _ => '9',
        };
        push_char(buf, d);
        proof {
            assert(d == digit_char(p as int % 10));
            assert(buf@ =~= old(buf)@ + dec_str(p as int));
        }
    }
}

fn push_str_items(buf: &mut String, items: &Vec<String>)
    ensures
        final(buf)@ == old(buf)@ + str_items(items.deep_view()),
{
    let ghost b0 = buf@;
    let ghost iv = items.deep_view();
    proof {
        assert(iv.take(0) =~= Seq::<Seq<char>>::empty());
        assert(buf@ =~= b0 + str_items(iv.take(0)));
    }
    let n = items.len();
    for i in 0..n
        invariant
            n == items.len(),
            iv == items.deep_view(),
            iv.len() == n,
            buf@ == b0 + str_items(iv.take(i as int)),
    {
        let ghost before = buf@;
        buf.append("      - ");
        push_quoted(buf, items[i].as_str());
        buf.append("\n");
        proof {
            assert(iv[i as int] == items@[i as int]@);
            assert(iv.take(i as int + 1).drop_last() =~= iv.take(i as int));
            assert(iv.take(i as int + 1).last() == iv[i as int]);
            assert(buf@ =~= b0 + str_items(iv.take(i as int + 1)));
        }
    }
    proof {
        assert(iv.take(n as int) =~= iv);
    }
}

fn push_port_items(buf: &mut String, ports: &Vec<Port>)
    ensures
        final(buf)@ == old(buf)@ + port_items(ports.deep_view()),
{
    let ghost b0 = buf@;
    let ghost pv = ports.deep_view();
    proof {
        assert(pv.take(0) =~= Seq::<u16>::empty());
        assert(buf@ =~= b0 + port_items(pv.take(0)));
    }
    let n = ports.len();
    for i in 0..n
        invariant
            n == ports.len(),
            pv == ports.deep_view(),
            pv.len() == n,
            buf@ == b0 + port_items(pv.take(i as int)),
    {
        buf.append("      - ");
        push_char(buf, '"');
        push_port_digits(buf, ports[i].0);
        push_char(buf, '"');
        buf.append("\n");
        proof {
            assert(pv[i as int] == ports@[i as int].deep_view());
            let d = dec_str(pv[i as int] as int);
            lemma_dec_str_plain(pv[i as int] as int);
            assert(quoted(d) =~= seq!['"'] + d + seq!['"']);
            assert(pv.take(i as int + 1).drop_last() =~= pv.take(i as int));
            assert(pv.take(i as int + 1).last() == pv[i as int]);
            assert(buf@ =~= b0 + port_items(pv.take(i as int + 1)));
        }
    }
    proof {
        assert(pv.take(n as int) =~= pv);
    }
}

/// A digit character is written as itself.
proof fn lemma_digit_plain(d: int)
    ensures
        esc_char(digit_char(d)) == seq![digit_char(d)],
{
    assert(esc_char(digit_char(d)) =~= seq![digit_char(d)]);
}

/// Decimal digits need no escaping inside quotes.
proof fn lemma_dec_str_plain(n: int)
    ensures
        esc(dec_str(n)) == dec_str(n),
    decreases n,
{
    if n < 10 {
        lemma_digit_plain(n);
        let d = digit_char(n);
        assert(seq![d].drop_last() =~= Seq::<char>::empty());
        assert(seq![d].last() == d);
        assert(esc(seq![d]) == esc(Seq::<char>::empty()) + esc_char(d));
        assert(esc(dec_str(n)) =~= dec_str(n));
    } else {
        lemma_dec_str_plain(n / 10);
        lemma_digit_plain(n % 10);
        assert(dec_str(n).drop_last() =~= dec_str(n / 10));
        assert(dec_str(n).last() == digit_char(n % 10));
        assert(esc(dec_str(n)) =~= dec_str(n));
    }
}

fn push_env_items(buf: &mut String, env: &Vec<(String, String)>)
    ensures
        final(buf)@ == old(buf)@ + env_items(env.deep_view()),
{
    let ghost b0 = buf@;
    let ghost ev = env.deep_view();
    proof {
        assert(ev.take(0) =~= Seq::<(Seq<char>, Seq<char>)>::empty());
        assert(buf@ =~= b0 + env_items(ev.take(0)));
    }
    let n = env.len();
    for i in 0..n
        invariant
            n == env.len(),
            ev == env.deep_view(),
            ev.len() == n,
            buf@ == b0 + env_items(ev.take(i as int)),
    {
        buf.append("      ");
        push_quoted(buf, env[i].0.as_str());
        buf.append(": ");
        push_quoted(buf, env[i].1.as_str());
        buf.append("\n");
        proof {
            assert(ev[i as int] == env@[i as int].deep_view());
            assert(ev.take(i as int + 1).drop_last() =~= ev.take(i as int));
            assert(ev.take(i as int + 1).last() == ev[i as int]);
            assert(buf@ =~= b0 + env_items(ev.take(i as int + 1)));
        }
    }
    proof {
        assert(ev.take(n as int) =~= ev);
    }
}

#[verifier::rlimit(100)]
fn push_service(buf: &mut String, name: &String, s: &Service)
    ensures
        final(buf)@ == old(buf)@ + emit_service(name@, s.deep_view()),
{
    let ghost b0 = buf@;
    let ghost sv = s.deep_view();
    let ghost head = "  "@ + quoted(name@) + ":\n"@ + "    image: "@ + quoted(sv.image) + "\n"@;
    let ghost part_ports = if sv.ports.len() == 0 {
        Seq::<char>::empty()
    } else {
        "    ports:\n"@ + port_items(sv.ports)
    };
    let ghost part_dep = if sv.depends_on.len() == 0 {
        Seq::<char>::empty()
    } else {
        "    depends_on:\n"@ + str_items(sv.depends_on)
    };
    let ghost part_cmd = match sv.command {
        Some(c) => if c.len() == 0 {
            Seq::<char>::empty()
        } else {
            "    command:\n"@ + str_items(c)
        },
        None => Seq::<char>::empty(),
    };
    let ghost part_entry = match sv.entrypoint {
        Some(c) => if c.len() == 0 {
            Seq::<char>::empty()
        } else {
            "    entrypoint:\n"@ + str_items(c)
        },
        None => Seq::<char>::empty(),
    };
    let ghost part_env = if sv.environment.len() == 0 {
        Seq::<char>::empty()
    } else {
        "    environment:\n"@ + env_items(sv.environment)
    };
    buf.append("  ");
    push_quoted(buf, name.as_str());
    buf.append(":\n");
    buf.append("    image: ");
    push_quoted(buf, s.image.as_str());
    buf.append("\n");
    proof {
        vstd::seq_lib::lemma_concat_associative(b0, "  "@, quoted(name@));
        vstd::seq_lib::lemma_concat_associative(b0, "  "@ + quoted(name@), ":\n"@);
        vstd::seq_lib::lemma_concat_associative(
            b0,
            "  "@ + quoted(name@) + ":\n"@,
            "    image: "@,
        );
        vstd::seq_lib::lemma_concat_associative(
            b0,
            "  "@ + quoted(name@) + ":\n"@ + "    image: "@,
            quoted(sv.image),
        );
        vstd::seq_lib::lemma_concat_associative(
            b0,
            "  "@ + quoted(name@) + ":\n"@ + "    image: "@ + quoted(sv.image),
            "\n"@,
        );
        assert(buf@ == b0 + head);
    }
    if s.ports.len() > 0 {
        buf.append("    ports:\n");
        push_port_items(buf, &s.ports);
        proof {
            vstd::seq_lib::lemma_concat_associative(
                b0 + head,
                "    ports:\n"@,
                port_items(sv.ports),
            );
        }
    }
    proof {
        assert(buf@ == b0 + head + part_ports);
    }
    if s.depends_on.len() > 0 {
        buf.append("    depends_on:\n");
        push_str_items(buf, &s.depends_on);
        proof {
            vstd::seq_lib::lemma_concat_associative(
                b0 + head + part_ports,
                "    depends_on:\n"@,
                str_items(sv.depends_on),
            );
        }
    }
    proof {
        assert(buf@ == b0 + head + part_ports + part_dep);
    }
    match &s.command {
        Some(c) => {
            if c.len() > 0 {
                buf.append("    command:\n");
                push_str_items(buf, c);
                proof {
                    vstd::seq_lib::lemma_concat_associative(
                        b0 + head + part_ports + part_dep,
                        "    command:\n"@,
                        str_items(c.deep_view()),
                    );
                }
            }
        },
        None => {},
    }
    proof {
        assert(buf@ == b0 + head + part_ports + part_dep + part_cmd);
    }
    match &s.entrypoint {
        Some(c) => {
            if c.len() > 0 {
                buf.append("    entrypoint:\n");
                push_str_items(buf, c);
                proof {
                    vstd::seq_lib::lemma_concat_associative(
                        b0 + head + part_ports + part_dep + part_cmd,
                        "    entrypoint:\n"@,
                        str_items(c.deep_view()),
                    );
                }
            }
        },
        None => {},
    }
    proof {
        assert(buf@ == b0 + head + part_ports + part_dep + part_cmd + part_entry);
    }
    if s.environment.len() > 0 {
        buf.append("    environment:\n");
        push_env_items(buf, &s.environment);
        proof {
            vstd::seq_lib::lemma_concat_associative(
                b0 + head + part_ports + part_dep + part_cmd + part_entry,
                "    environment:\n"@,
                env_items(sv.environment),
            );
        }
    }
    proof {
        assert(buf@ == b0 + head + part_ports + part_dep + part_cmd + part_entry + part_env);
        assert(emit_service(name@, sv) == head + part_ports + part_dep + part_cmd + part_entry
            + part_env);
        vstd::seq_lib::lemma_concat_associative(
            b0,
            head + part_ports + part_dep + part_cmd + part_entry,
            part_env,
        );
        vstd::seq_lib::lemma_concat_associative(
            b0,
            head + part_ports + part_dep + part_cmd,
            part_entry,
        );
        vstd::seq_lib::lemma_concat_associative(b0, head + part_ports + part_dep, part_cmd);
        vstd::seq_lib::lemma_concat_associative(b0, head + part_ports, part_dep);
        vstd::seq_lib::lemma_concat_associative(b0, head, part_ports);
        assert(buf@ == b0 + emit_service(name@, sv));
    }
}

impl Compose {
    /// Writes this document as YAML text, one fixed rendering: every
    /// scalar double-quoted, two-space indentation, empty fields
    /// omitted. The text is a function of the document's value alone.
    pub fn to_yaml(&self) -> (r: String)
        ensures
            r@ == spec_compose_yaml(self.version, services_val(*self)),
    {
        let mut buf = String::new();
        match self.version {
            Version::V2 => {
                buf.append("version: \"3.8\"\n");
            },
        }
        if self.services.len() == 0 {
            buf.append("services: {}\n");
            proof {
                assert(buf@ =~= spec_compose_yaml(self.version, services_val(*self)));
            }
            return buf;
        }
        buf.append("services:\n");
        let ghost b0 = buf@;
        let ghost sv = services_val(*self);
        proof {
            assert(sv.take(0) =~= Seq::<(Seq<char>, ServiceV)>::empty());
            assert(buf@ =~= b0 + service_items(sv.take(0)));
        }
        let n = self.services.len();
        for i in 0..n
            invariant
                n == self.services.len(),
                sv == services_val(*self),
                sv.len() == n,
                buf@ == b0 + service_items(sv.take(i as int)),
                b0 == (match self.version {
                    Version::V2 => "version: \"3.8\"\n"@,
                }) + "services:\n"@,
        {
            let entry = &self.services[i];
            push_service(&mut buf, &entry.0, &entry.1);
            proof {
                assert(sv[i as int] == self.services@[i as int].deep_view());
                assert(sv.take(i as int + 1).drop_last() =~= sv.take(i as int));
                assert(sv.take(i as int + 1).last() == sv[i as int]);
                assert(buf@ =~= b0 + service_items(sv.take(i as int + 1)));
            }
        }
        proof {
            assert(sv.take(n as int) =~= sv);
            assert(buf@ =~= spec_compose_yaml(self.version, services_val(*self)));
        }
        buf
    }
}

} // verus!
