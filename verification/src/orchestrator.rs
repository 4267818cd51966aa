//! The orchestrator: drives a whole CSV text through the registry, one
//! data row per line, and renders the final account states as CSV.

use vstd::prelude::*;

use crate::command::{row_command_spec, CsvRow, TransactionTypeCommand};
use crate::decimal::{
    amount_str, ascii_to_string, dec_str, find_sep, lemma_sep_index_at, lemma_split_len_le,
    lemma_split_len_pos, push_amount, push_dec_digits, split_spec,
};
use crate::envelope::{CommandMetadata, DeduplicationKey};
use crate::error::PaymentError;
use crate::registry::{registry_step, ClientRegistry};
use crate::state::AccountState;
use vstd::multiset::Multiset;

verus! {

/// The deduplication key text for data line `n` of the source `path`.
pub open spec fn key_of(path: Seq<char>, n: int) -> Seq<char> {
    "csv:"@ + path + ":"@ + dec_str(n)
}

/// How one physical line under key `key` moves the registry: an empty
/// line, a line without exactly four fields, and a malformed row are
/// skipped; a well-formed row is one processed command.
pub open spec fn line_step(
    pre: ClientRegistry,
    post: ClientRegistry,
    line: Seq<char>,
    key: Seq<char>,
    now: i64,
) -> bool {
    let fields = split_spec(line, ',');
    if line.len() == 0 || fields.len() != 4 {
        post == pre
    } else {
        match row_command_spec(fields[0], fields[1], fields[2], fields[3]) {
            Some(cmd) => exists|r: Result<(), PaymentError>|
                registry_step(pre, post, cmd.spec_client_id(), cmd, key, now, r),
            None => post == pre,
        }
    }
}

/// The registry evolution over the data lines `lines`, numbered from
/// `lineno`: one [`line_step`] per line, in order.
pub open spec fn lines_rel(
    pre: ClientRegistry,
    post: ClientRegistry,
    lines: Seq<Seq<char>>,
    path: Seq<char>,
    lineno: int,
    now: i64,
) -> bool
    decreases lines.len(),
{
    if lines.len() == 0 {
        post == pre
    } else {
        exists|mid: ClientRegistry|
            #![auto]
            line_step(pre, mid, lines[0], key_of(path, lineno), now) && lines_rel(
                mid,
                post,
                lines.drop_first(),
                path,
                lineno + 1,
                now,
            )
    }
}

/// One more processed line extends the evolution at its end.
proof fn lemma_lines_rel_snoc(
    pre: ClientRegistry,
    mid: ClientRegistry,
    post: ClientRegistry,
    lines: Seq<Seq<char>>,
    line: Seq<char>,
    path: Seq<char>,
    lineno: int,
    now: i64,
)
    requires
        lines_rel(pre, mid, lines, path, lineno, now),
        line_step(mid, post, line, key_of(path, lineno + lines.len()), now),
    ensures
        lines_rel(pre, post, lines.push(line), path, lineno, now),
    decreases lines.len(),
{
    if lines.len() == 0 {
        assert(mid == pre);
        assert(lines.push(line)[0] == line);
        assert(lines.push(line).drop_first() =~~= Seq::<Seq<char>>::empty());
        assert(line_step(pre, post, lines.push(line)[0], key_of(path, lineno), now));
        assert(lines_rel(post, post, lines.push(line).drop_first(), path, lineno + 1, now));
    } else {
        let m1 = choose|m: ClientRegistry|
            #![auto]
            line_step(pre, m, lines[0], key_of(path, lineno), now) && lines_rel(
                m,
                mid,
                lines.drop_first(),
                path,
                lineno + 1,
                now,
            );
        lemma_lines_rel_snoc(m1, mid, post, lines.drop_first(), line, path, lineno + 1, now);
        assert(lines.push(line).drop_first() =~~= lines.drop_first().push(line));
        assert(lines.push(line)[0] == lines[0]);
        assert(line_step(pre, m1, lines.push(line)[0], key_of(path, lineno), now));
        assert(lines_rel(m1, post, lines.push(line).drop_first(), path, lineno + 1, now));
    }
}

/// Drives commands from a CSV text through a registry and renders the
/// outcome.
pub struct Orchestrator {
    registry: ClientRegistry,
}

impl Orchestrator {
    /// The registry the orchestrator drives.
    pub closed spec fn spec_registry(self) -> ClientRegistry {
        self.registry
    }

    /// Well-formedness: the registry is well formed.
    pub open spec fn wf(self) -> bool {
        self.spec_registry().wf()
    }

    /// An orchestrator over a fresh registry.
    pub fn new() -> (r: Self)
        ensures
            r.wf(),
            r.spec_registry().spec_journal().log().len() == 0,
            r.spec_registry().spec_actors().len() == 0,
    {
        Orchestrator { registry: ClientRegistry::new() }
    }

    /// An orchestrator over the given registry.
    pub fn with_registry(registry: ClientRegistry) -> (r: Self)
        ensures
            r.spec_registry() == registry,
    {
        Orchestrator { registry }
    }

    /// Process a whole CSV text: the first line is the header; every
    /// following physical line is a data row, numbered from one for the
    /// deduplication keys. Malformed rows and failed commands are skipped
    /// and processing continues. Returns the final account states, one
    /// per client seen, in first-seen order.
    pub fn process(&mut self, content: &str, file_path: &str, now: i64) -> (r: Result<
        Vec<(u16, AccountState)>,
        PaymentError,
    >)
        requires
            old(self).wf(),
            content@.len() + 2 <= usize::MAX,
        ensures
            final(self).wf(),
            lines_rel(
                old(self).spec_registry(),
                final(self).spec_registry(),
                split_spec(content@, '\n').drop_first(),
                file_path@,
                1,
                now,
            ),
            r matches Ok(v) && {
                let actors = final(self).spec_registry().spec_actors();
                &&& v@.len() == actors.len()
                &&& forall|i: int|
                    0 <= i < v@.len() ==> (#[trigger] v@[i]).0 == actors[i].client_id && v@[i].1
                        == actors[i].account_state
            },
    {
        let ghost reg0 = self.registry;
        let ghost rows = split_spec(content@, '\n').drop_first();
        let n = content.unicode_len();

        // Skip the header line.
        let d0 = find_sep(content, 0, '\n');
        proof {
            lemma_sep_index_at(content@, '\n', d0 as int);
            lemma_split_len_le(content@, '\n');
        }
        let mut start: usize = d0 + 1;
        proof {
            if d0 == n {
                assert(split_spec(content@, '\n') =~~= seq![content@]);
                assert(rows.len() == 0);
            } else {
                assert(split_spec(content@, '\n') == seq![content@.take(d0 as int)] + split_spec(
                    content@.skip(d0 + 1),
                    '\n',
                ));
                assert(rows =~~= split_spec(content@.skip(d0 + 1), '\n'));
                lemma_split_len_pos(content@.skip(d0 + 1), '\n');
            }
        }

        let ghost path = file_path@;
        let mut lineno: u64 = 1;
        let ghost processed: int = 0;
        proof {
            assert(rows.take(0) =~~= Seq::<Seq<char>>::empty());
        }
        while start <= n
            invariant
                self.wf(),
                n == content@.len(),
                n + 2 <= usize::MAX,
                rows == split_spec(content@, '\n').drop_first(),
                rows.len() <= n + 1,
                path == file_path@,
                0 <= processed <= rows.len(),
                lineno == processed + 1,
                processed < rows.len() ==> start <= n && split_spec(content@.skip(start as int), '\n')
                    == rows.skip(processed),
                processed == rows.len() ==> start > n,
                lines_rel(reg0, self.registry, rows.take(processed), path, 1, now),
            decreases n + 1 - start,
        {
            let ghost cur = content@.skip(start as int);
            let d = find_sep(content, start, '\n');
            proof {
                assert(forall|m: int| 0 <= m < cur.len() ==> #[trigger] cur[m] == content@[m + start]);
                lemma_sep_index_at(cur, '\n', d - start);
            }
            let line = content.substring_char(start, d);
            proof {
                assert(line@ =~= cur.take(d - start));
                assert(rows.skip(processed)[0] == rows[processed]);
                if d == n {
                    assert(split_spec(cur, '\n') =~~= seq![cur]);
                    assert(split_spec(cur, '\n')[0] == cur);
                    assert(cur.take(d - start) =~= cur);
                    assert(rows[processed] == line@);
                } else {
                    assert(split_spec(cur, '\n') == seq![cur.take(d - start)] + split_spec(
                        cur.skip(d - start + 1),
                        '\n',
                    ));
                    assert(split_spec(cur, '\n')[0] == cur.take(d - start));
                    assert(rows[processed] == line@);
                    assert(cur.skip(d - start + 1) =~= content@.skip(d + 1));
                    assert(rows.skip(processed).drop_first() =~~= rows.skip(processed + 1));
                    lemma_split_len_pos(content@.skip(d + 1), '\n');
                }
            }

            let ghost reg_before = self.registry;
            let ghost key = key_of(path, lineno as int);

            if line.unicode_len() > 0 {
                match CsvRow::from_line(line) {
                    Some(row) => {
                        match TransactionTypeCommand::try_from(&row) {
                            Ok(cmd) => {
                                let mut digits: Vec<u8> = Vec::new();
                                push_dec_digits(lineno, &mut digits);
                                let digits_str = ascii_to_string(digits);
                                let mut key_text = String::from_str("csv:");
                                key_text.append(file_path);
                                key_text.append(":");
                                key_text.append(digits_str.as_str());
                                proof {
                                    assert(key_text@ =~= key);
                                }
                                let metadata = CommandMetadata {
                                    deduplication_key: DeduplicationKey::new(key_text),
                                };
                                let client_id = cmd.client_id();
                                let res = self.registry.process_command(
                                    client_id,
                                    cmd,
                                    metadata,
                                    now,
                                );
                                proof {
                                    let fields = split_spec(line@, ',');
                                    assert(row_command_spec(
                                        fields[0],
                                        fields[1],
                                        fields[2],
                                        fields[3],
                                    ) == Some(cmd));
                                    assert(registry_step(
                                        reg_before,
                                        self.registry,
                                        cmd.spec_client_id(),
                                        cmd,
                                        key,
                                        now,
                                        res,
                                    ));
                                    assert(line_step(reg_before, self.registry, line@, key, now));
                                }
                            },
                            Err(_) => {
                                proof {
                                    assert(line_step(reg_before, self.registry, line@, key, now));
                                }
                            },
                        }
                    },
                    None => {
                        proof {
                            assert(line_step(reg_before, self.registry, line@, key, now));
                        }
                    },
                }
            } else {
                proof {
                    assert(line_step(reg_before, self.registry, line@, key, now));
                }
            }

            proof {
                lemma_lines_rel_snoc(
                    reg0,
                    reg_before,
                    self.registry,
                    rows.take(processed),
                    rows[processed],
                    path,
                    1,
                    now,
                );
                assert(rows.take(processed).push(rows[processed]) =~~= rows.take(processed + 1));
            }

            start = d + 1;
            lineno = lineno + 1;
            proof {
                processed = processed + 1;
            }
        }

        proof {
            assert(rows.take(processed) =~~= rows);
        }
        let states = self.registry.get_all_states()?;
        Ok(states)
    }

    /// Stop every client actor and forget the processed set.
    pub fn shutdown(&mut self)
        requires
            old(self).wf(),
        ensures
            final(self).wf(),
            final(self).spec_registry().spec_actors().len() == 0,
    {
        self.registry.shutdown_all();
    }
}

/// Where `x` goes when inserted into `s`: before the first entry whose
/// client id is greater, after every other.
pub open spec fn insert_row_spec(
    x: (u16, AccountState),
    s: Seq<(u16, AccountState)>,
) -> Seq<(u16, AccountState)>
    decreases s.len(),
{
    if s.len() == 0 {
        seq![x]
    } else if x.0 < s[0].0 {
        seq![x] + s
    } else {
        seq![s[0]] + insert_row_spec(x, s.drop_first())
    }
}

/// `s` sorted by client id, ascending, by insertion: a stable,
/// deterministic ordering.
pub open spec fn sort_rows(s: Seq<(u16, AccountState)>) -> Seq<(u16, AccountState)>
    decreases s.len(),
{
    if s.len() == 0 {
        Seq::empty()
    } else {
        insert_row_spec(s.last(), sort_rows(s.drop_last()))
    }
}

/// Whether the rows are in ascending client-id order.
pub open spec fn rows_sorted(s: Seq<(u16, AccountState)>) -> bool {
    forall|p: int, q: int|
        0 <= p < q < s.len() ==> (#[trigger] s[p]).0 <= (#[trigger] s[q]).0
}

/// Insertion keeps the rows ordered, keeps the head early, and adds
/// exactly the inserted row.
proof fn lemma_insert_row_sorted(x: (u16, AccountState), s: Seq<(u16, AccountState)>)
    requires
        rows_sorted(s),
    ensures
        insert_row_spec(x, s).len() == s.len() + 1,
        rows_sorted(insert_row_spec(x, s)),
        insert_row_spec(x, s)[0] == x || (s.len() > 0 && insert_row_spec(x, s)[0] == s[0]),
        insert_row_spec(x, s).to_multiset() == s.to_multiset().insert(x),
    decreases s.len(),
{
    broadcast use vstd::seq_lib::group_to_multiset_ensures;
    broadcast use vstd::multiset::group_multiset_axioms;

    let ins = insert_row_spec(x, s);
    if s.len() == 0 {
        assert(ins =~= Seq::empty().push(x));
        assert(Seq::<(u16, AccountState)>::empty().to_multiset() =~= Multiset::empty()) by {
            assert(Seq::<(u16, AccountState)>::empty().to_multiset().len() == 0);
        }
        assert(ins.to_multiset() =~= s.to_multiset().insert(x));
    } else if x.0 < s[0].0 {
        assert(ins == seq![x] + s);
        assert(forall|q: int| 0 <= q < s.len() ==> (#[trigger] ins[q + 1]) == s[q]);
        assert(ins[0] == x);
        assert forall|p: int, q: int| 0 <= p < q < ins.len() implies ins[p].0 <= ins[q].0 by {
            if p == 0 {
                assert(ins[q] == s[q - 1]);
                if q - 1 > 0 {
                    assert(s[0].0 <= s[q - 1].0);
                }
            } else {
                assert(ins[p] == s[p - 1] && ins[q] == s[q - 1]);
            }
        }
        vstd::seq_lib::lemma_multiset_commutative(seq![x], s);
        assert(seq![x] =~= Seq::empty().push(x));
        assert(Seq::<(u16, AccountState)>::empty().to_multiset() =~= Multiset::empty()) by {
            assert(Seq::<(u16, AccountState)>::empty().to_multiset().len() == 0);
        }
        assert(ins.to_multiset() =~= s.to_multiset().insert(x));
    } else {
        let df = s.drop_first();
        assert(forall|m: int| 0 <= m < df.len() ==> (#[trigger] df[m]) == s[m + 1]);
        lemma_insert_row_sorted(x, df);
        let inner = insert_row_spec(x, df);
        assert(ins == seq![s[0]] + inner);
        assert(ins[0] == s[0]);
        assert(forall|q: int| 0 <= q < inner.len() ==> (#[trigger] ins[q + 1]) == inner[q]);
        assert(s[0].0 <= inner[0].0) by {
            if inner[0] == x {
                assert(!(x.0 < s[0].0));
            } else {
                assert(inner[0] == df[0]);
                assert(df[0] == s[1]);
            }
        }
        assert forall|p: int, q: int| 0 <= p < q < ins.len() implies ins[p].0 <= ins[q].0 by {
            if p == 0 {
                assert(ins[q] == inner[q - 1]);
                if q - 1 > 0 {
                    assert(inner[0].0 <= inner[q - 1].0);
                }
            } else {
                assert(ins[p] == inner[p - 1] && ins[q] == inner[q - 1]);
            }
        }
        vstd::seq_lib::lemma_multiset_commutative(seq![s[0]], inner);
        vstd::seq_lib::lemma_multiset_commutative(seq![s[0]], df);
        assert(s =~= seq![s[0]] + df);
        assert(ins.to_multiset() =~= s.to_multiset().insert(x));
    }
}

/// The output ordering is what it claims to be: sorting arranges the
/// rows ascending by client id, and neither adds nor drops a row.
pub proof fn lemma_sort_rows_sorted(s: Seq<(u16, AccountState)>)
    ensures
        rows_sorted(sort_rows(s)),
        sort_rows(s).to_multiset() == s.to_multiset(),
    decreases s.len(),
{
    broadcast use vstd::seq_lib::group_to_multiset_ensures;

    if s.len() > 0 {
        lemma_sort_rows_sorted(s.drop_last());
        lemma_insert_row_sorted(s.last(), sort_rows(s.drop_last()));
        assert(s =~= s.drop_last().push(s.last()));
        assert(sort_rows(s).to_multiset() =~= s.to_multiset());
    }
}

/// Inserting at the first position whose entry is greater realises
/// `insert_row_spec`.
proof fn lemma_insert_row_at(x: (u16, AccountState), s: Seq<(u16, AccountState)>, j: int)
    requires
        0 <= j <= s.len(),
        forall|m: int| 0 <= m < j ==> !(x.0 < (#[trigger] s[m]).0),
        j == s.len() || x.0 < s[j].0,
    ensures
        insert_row_spec(x, s) == s.take(j) + seq![x] + s.skip(j),
    decreases s.len(),
{
    if j == 0 {
        if s.len() == 0 {
            assert(insert_row_spec(x, s) =~~= s.take(0) + seq![x] + s.skip(0));
        } else {
            assert(x.0 < s[0].0);
            assert(insert_row_spec(x, s) =~~= s.take(0) + seq![x] + s.skip(0));
        }
    } else {
        assert(!(x.0 < s[0].0));
        assert(forall|m: int|
            0 <= m < s.drop_first().len() ==> #[trigger] s.drop_first()[m] == s[m + 1]);
        lemma_insert_row_at(x, s.drop_first(), j - 1);
        assert(insert_row_spec(x, s) =~~= s.take(j) + seq![x] + s.skip(j));
    }
}

/// Sort account rows by client id, ascending.
pub fn sort_states(v: &Vec<(u16, AccountState)>) -> (r: Vec<(u16, AccountState)>)
    ensures
        r@ == sort_rows(v@),
{
    let n = v.len();
    let mut out: Vec<(u16, AccountState)> = Vec::new();
    let mut i: usize = 0;
    proof {
        assert(v@.take(0) =~~= Seq::<(u16, AccountState)>::empty());
    }
    while i < n
        invariant
            n == v@.len(),
            0 <= i <= n,
            out@ == sort_rows(v@.take(i as int)),
        decreases n - i,
    {
        let x = v[i];
        let m = out.len();
        let mut j: usize = 0;
        while j < m && out[j].0 <= x.0
            invariant
                m == out@.len(),
                0 <= j <= m,
                forall|p: int| 0 <= p < j ==> !(x.0 < (#[trigger] out@[p]).0),
            decreases m - j,
        {
            j += 1;
        }
        let ghost before = out@;
        proof {
            lemma_insert_row_at(x, before, j as int);
        }
        out.insert(j, x);
        proof {
            assert(out@ =~~= before.take(j as int) + seq![x] + before.skip(j as int));
            assert(v@.take(i + 1).drop_last() =~~= v@.take(i as int));
            assert(v@.take(i + 1).last() == v@[i as int]);
            assert(out@ == sort_rows(v@.take(i + 1)));
        }
        i += 1;
    }
    proof {
        assert(v@.take(n as int) =~~= v@);
    }
    out
}

/// The CSV rendering of one account row: client id, the three balances
/// with four fractional digits, and the locked flag.
pub open spec fn render_row(row: (u16, AccountState)) -> Seq<char> {
    dec_str(row.0 as int) + ","@ + amount_str(row.1.available()) + ","@ + amount_str(row.1.held())
        + ","@ + amount_str(row.1.total()) + ","@ + (if row.1.is_frozen() {
        "true"@
    } else {
        "false"@
    }) + "\n"@
}

/// The CSV renderings of all rows, in order.
pub open spec fn render_rows(rows: Seq<(u16, AccountState)>) -> Seq<char>
    decreases rows.len(),
{
    if rows.len() == 0 {
        Seq::empty()
    } else {
        render_rows(rows.drop_last()) + render_row(rows.last())
    }
}

/// The whole output text: the header, then one line per row.
pub open spec fn render_output(rows: Seq<(u16, AccountState)>) -> Seq<char> {
    "client,available,held,total,locked\n"@ + render_rows(rows)
}

impl Orchestrator {
    /// Render the account states as the output CSV, sorted ascending by
    /// client id, balances with exactly four fractional digits.
    pub fn output_csv(states: &Vec<(u16, AccountState)>) -> (r: String)
        ensures
            r@ == render_output(sort_rows(states@)),
    {
        let sorted = sort_states(states);
        let n = sorted.len();
        let mut out = String::from_str("client,available,held,total,locked\n");
        let mut i: usize = 0;
        proof {
            assert(sorted@.take(0) =~~= Seq::<(u16, AccountState)>::empty());
            assert(out@ =~= render_output(sorted@.take(0)));
        }
        while i < n
            invariant
                n == sorted@.len(),
                0 <= i <= n,
                out@ == render_output(sorted@.take(i as int)),
            decreases n - i,
        {
            let ghost prev = out@;
            let (client_id, state) = sorted[i];
            let (available, held, total, locked): (i64, i64, i64, bool) = match state {
                AccountState::Active(a) => (a.available, a.held, a.total, false),
                AccountState::Frozen(f) => (f.available, f.held, f.total, true),
            };

            let ghost r1 = dec_str(client_id as int);
            let ghost r2 = r1 + ","@;
            let ghost r3 = r2 + amount_str(available as int);
            let ghost r4 = r3 + ","@;
            let ghost r5 = r4 + amount_str(held as int);
            let ghost r6 = r5 + ","@;
            let ghost r7 = r6 + amount_str(total as int);
            let ghost r8 = r7 + ","@;
            let ghost r9 = r8 + (if locked {
                "true"@
            } else {
                "false"@
            });

            let mut digits: Vec<u8> = Vec::new();
            push_dec_digits(client_id as u64, &mut digits);
            let digits_str = ascii_to_string(digits);
            out.append(digits_str.as_str());
            proof {
                assert(digits_str@ =~= r1);
            }
            out.append(",");
            proof {
                vstd::seq_lib::lemma_concat_associative(prev, r1, ","@);
            }

            let mut ab: Vec<u8> = Vec::new();
            push_amount(available, &mut ab);
            let ab_str = ascii_to_string(ab);
            out.append(ab_str.as_str());
            proof {
                assert(ab_str@ =~= amount_str(available as int));
                vstd::seq_lib::lemma_concat_associative(prev, r2, amount_str(available as int));
            }
            out.append(",");
            proof {
                vstd::seq_lib::lemma_concat_associative(prev, r3, ","@);
            }

            let mut hb: Vec<u8> = Vec::new();
            push_amount(held, &mut hb);
            let hb_str = ascii_to_string(hb);
            out.append(hb_str.as_str());
            proof {
                assert(hb_str@ =~= amount_str(held as int));
                vstd::seq_lib::lemma_concat_associative(prev, r4, amount_str(held as int));
            }
            out.append(",");
            proof {
                vstd::seq_lib::lemma_concat_associative(prev, r5, ","@);
            }

            let mut tb: Vec<u8> = Vec::new();
            push_amount(total, &mut tb);
            let tb_str = ascii_to_string(tb);
            out.append(tb_str.as_str());
            proof {
                assert(tb_str@ =~= amount_str(total as int));
                vstd::seq_lib::lemma_concat_associative(prev, r6, amount_str(total as int));
            }
            out.append(",");
            proof {
                vstd::seq_lib::lemma_concat_associative(prev, r7, ","@);
            }

            if locked {
                out.append("true");
            } else {
                out.append("false");
            }
            proof {
                vstd::seq_lib::lemma_concat_associative(
                    prev,
                    r8,
                    if locked {
                        "true"@
                    } else {
                        "false"@
                    },
                );
                assert(out@ == prev + r9);
            }
            out.append("\n");

            proof {
                vstd::seq_lib::lemma_concat_associative(prev, r9, "\n"@);
                assert(render_row(sorted@[i as int]) == r9 + "\n"@);
                assert(out@ == prev + render_row(sorted@[i as int]));
                assert(sorted@.take(i + 1).drop_last() =~~= sorted@.take(i as int));
                assert(sorted@.take(i + 1).last() == sorted@[i as int]);
                vstd::seq_lib::lemma_concat_associative(
                    "client,available,held,total,locked\n"@,
                    render_rows(sorted@.take(i as int)),
                    render_row(sorted@[i as int]),
                );
                assert(out@ == render_output(sorted@.take(i + 1)));
            }
            i += 1;
        }
        proof {
            assert(sorted@.take(n as int) =~~= sorted@);
        }
        out
    }
}

} // verus!
