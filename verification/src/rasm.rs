//! The assembler core: the symbol table shared by labels and variables, the
//! `Code` artifact produced by assembly, and the single-pass assembler driver.
use vstd::prelude::*;

pub mod computer;
pub mod cpu;
pub mod exec;
pub mod instr;
pub mod mem;
pub mod text;

use instr::Instruction;

verus! {

/// The unsigned 16-bit bit pattern `u` reinterpreted as a signed value.
pub open spec fn as_i16(u: u16) -> i16 {
    if u < 0x8000 {
        u as i16
    } else {
        (u - 0x10000) as i16
    }
}

/// The signed 16-bit value `x` reinterpreted as its unsigned bit pattern.
pub open spec fn as_u16(x: i16) -> u16 {
    if x >= 0 {
        x as u16
    } else {
        (x + 0x10000) as u16
    }
}

/// Reinterprets an unsigned 16-bit bit pattern as a signed value.
pub fn u16_to_i16(u: u16) -> (r: i16)
    ensures
        r == as_i16(u),
{
    if u < 0x8000 {
        u as i16
    } else {
        ((u as i32) - 0x10000) as i16
    }
}

/// Reinterprets a signed 16-bit value as its unsigned bit pattern.
pub fn i16_to_u16(x: i16) -> (r: u16)
    ensures
        r == as_u16(x),
{
    if x >= 0 {
        x as u16
    } else {
        ((x as i32) + 0x10000) as u16
    }
}

/// Why assembly or symbol resolution failed.
#[derive(Clone, Copy, Debug, PartialEq, Eq, Structural)]
pub enum AsmErrorKind {
    /// A `#` immediate operand whose literal could not be parsed.
    BadImmediate,
    /// An identifier was looked up that the table does not hold.
    UnresolvedIdentifier,
}

/// A fatal assembly-time diagnostic: what went wrong and on which
/// (0-based) source line.
#[derive(Clone, Copy, Debug, PartialEq, Eq, Structural)]
pub struct AsmError {
    pub line: usize,
    pub kind: AsmErrorKind,
}

/// Mathematical model of a [`SymbolTable`]: the identifier map plus the
/// bookkeeping counters.
pub struct SymView {
    /// Identifier -> address. Labels and variables share this one keyspace.
    pub table: Map<Seq<char>, u16>,
    /// How many label registrations happened.
    pub labels: nat,
    /// How many distinct variables were registered.
    pub num_vars: nat,
    /// Smallest numeric literal operand seen (0 when none was seen).
    pub min_addr: u16,
    /// Largest numeric literal operand seen (0 when none was seen).
    pub max_addr: u16,
    /// Whether any numeric literal operand was seen at all.
    pub lit_seen: bool,
}

/// Distinctness of the keys of an association list.
pub open spec fn keys_distinct(s: Seq<(String, u16)>) -> bool {
    forall|i: int, j: int| 0 <= i < j < s.len() ==> s[i].0@ != s[j].0@
}

/// The map held by an association list; a later entry wins, though under
/// [`keys_distinct`] there is never a repeated key.
pub open spec fn assoc_map(s: Seq<(String, u16)>) -> Map<Seq<char>, u16>
    decreases s.len(),
{
    if s.len() == 0 {
        Map::empty()
    } else {
        assoc_map(s.drop_last()).insert(s.last().0@, s.last().1)
    }
}

/// Under distinct keys, the association list and its map agree: same size,
/// same membership, and each entry is found at its own value.
pub proof fn lemma_assoc_map_props(s: Seq<(String, u16)>)
    requires
        keys_distinct(s),
    ensures
        assoc_map(s).dom().finite(),
        assoc_map(s).dom().len() == s.len(),
        forall|k: Seq<char>|
            assoc_map(s).contains_key(k) <==> (exists|i: int|
                0 <= i < s.len() && s[i].0@ == k),
        forall|i: int|
            0 <= i < s.len() ==> assoc_map(s).contains_key(#[trigger] s[i].0@) && assoc_map(
                s,
            )[s[i].0@] == s[i].1,
    decreases s.len(),
{
    if s.len() > 0 {
        let pre = s.drop_last();
        assert(keys_distinct(pre));
        lemma_assoc_map_props(pre);
        assert(!assoc_map(pre).contains_key(s.last().0@)) by {
            if assoc_map(pre).contains_key(s.last().0@) {
                let i = choose|i: int| 0 <= i < pre.len() && pre[i].0@ == s.last().0@;
                assert(s[i].0@ == s[s.len() - 1].0@);
            }
        }
        assert(assoc_map(s).dom() =~= assoc_map(pre).dom().insert(s.last().0@));
        vstd::set::axiom_set_insert_finite(assoc_map(pre).dom(), s.last().0@);
        vstd::set::axiom_set_insert_len(assoc_map(pre).dom(), s.last().0@);
        assert forall|i: int| 0 <= i < s.len() implies assoc_map(s).contains_key(
            #[trigger] s[i].0@,
        ) && assoc_map(s)[s[i].0@] == s[i].1 by {
            if i < s.len() - 1 {
                assert(pre[i] == s[i]);
                assert(s[i].0@ != s.last().0@);
            }
        }
    }
}

/// What looking an identifier up in a table with map `m` yields: `ACC` and
/// `IX` resolve specially to 0 and 1 and are never stored, any other name
/// resolves through the map.
pub open spec fn resolve_spec(m: Map<Seq<char>, u16>, key: Seq<char>) -> Option<u16> {
    if key == "ACC"@ {
        Some(0u16)
    } else if key == "IX"@ {
        Some(1u16)
    } else if m.contains_key(key) {
        Some(m[key])
    } else {
        None
    }
}

/// Registering a variable: a no-op for the reserved names and for names
/// already present; otherwise the name is bound to the next variable
/// index in first-use allocation order, labels notwithstanding.
pub open spec fn add_var_spec(v: SymView, ident: Seq<char>) -> SymView {
    if ident == "ACC"@ || ident == "IX"@ || v.table.contains_key(ident) {
        v
    } else {
        SymView {
            table: v.table.insert(ident, v.num_vars as u16),
            num_vars: v.num_vars + 1,
            ..v
        }
    }
}

/// Registering a label: inserts or overwrites unconditionally and counts it.
pub open spec fn add_label_spec(v: SymView, ident: Seq<char>, line: nat) -> SymView {
    SymView { table: v.table.insert(ident, line as u16), labels: v.labels + 1, ..v }
}

/// Recording a numeric literal operand: widens the observed address bounds.
pub open spec fn observe_literal_spec(v: SymView, val: u16) -> SymView {
    SymView {
        min_addr: if !v.lit_seen || val < v.min_addr {
            val
        } else {
            v.min_addr
        },
        max_addr: if !v.lit_seen || val > v.max_addr {
            val
        } else {
            v.max_addr
        },
        lit_seen: true,
        ..v
    }
}

/// Identifier -> 16-bit address, plus counters that later size the memory:
/// labels and variables share the one keyspace, disambiguated only by which
/// instruction consumes the resolved address.
pub struct SymbolTable {
    table: Vec<(String, u16)>,
    /// How many label registrations happened.
    pub labels: usize,
    min_addr: u16,
    max_addr: u16,
    lit_seen: bool,
    /// How many distinct variables were registered.
    pub num_vars: usize,
}

impl View for SymbolTable {
    type V = SymView;

    closed spec fn view(&self) -> SymView {
        SymView {
            table: assoc_map(self.table@),
            labels: self.labels as nat,
            num_vars: self.num_vars as nat,
            min_addr: self.min_addr,
            max_addr: self.max_addr,
            lit_seen: self.lit_seen,
        }
    }
}

impl SymbolTable {
    /// The table's internal invariant: no identifier is stored twice.
    pub closed spec fn wf(&self) -> bool {
        &&& keys_distinct(self.table@)
        &&& self.table@.len() == self@.table.dom().len()
        &&& self@.table.dom().finite()
    }

    pub fn new() -> (r: SymbolTable)
        ensures
            r.wf(),
            r@ == (SymView {
                table: Map::<Seq<char>, u16>::empty(),
                labels: 0,
                num_vars: 0,
                min_addr: 0,
                max_addr: 0,
                lit_seen: false,
            }),
    {
        let r = SymbolTable {
            table: Vec::new(),
            labels: 0,
            min_addr: 0,
            max_addr: 0,
            lit_seen: false,
            num_vars: 0,
        };
        proof {
            lemma_assoc_map_props(r.table@);
        }
        r
    }

    /// Index of the entry holding `key`, if any.
    fn find(&self, key: &String) -> (r: Option<usize>)
        requires
            self.wf(),
        ensures
            match r {
                Some(i) => i < self.table@.len() && self.table@[i as int].0@ == key@
                    && self@.table.contains_key(key@) && self@.table[key@] == self.table@[
                    i as int
                ].1,
                None => !self@.table.contains_key(key@),
            },
    {
        proof {
            lemma_assoc_map_props(self.table@);
        }
        let mut i: usize = 0;
        while i < self.table.len()
            invariant
                self.wf(),
                i <= self.table@.len(),
                forall|j: int| 0 <= j < i ==> self.table@[j].0@ != key@,
            decreases self.table@.len() - i,
        {
            if self.table[i].0 == *key {
                proof {
                    lemma_assoc_map_props(self.table@);
                }
                return Some(i);
            }
            i += 1;
        }
        proof {
            lemma_assoc_map_props(self.table@);
        }
        None
    }

    /// Registers a variable identifier: a no-op for `ACC`, `IX`, and names
    /// already present; otherwise the name gets the next sequential index.
    pub fn add_var(&mut self, ident: String)
        requires
            old(self).wf(),
            old(self)@.num_vars < 0x10000,
        ensures
            final(self).wf(),
            final(self)@ == add_var_spec(old(self)@, ident@),
    {
        let acc: String = "ACC".to_owned();
        let ix: String = "IX".to_owned();
        if ident == acc || ident == ix {
            return ;
        }
        if self.find(&ident).is_none() {
            proof {
                lemma_assoc_map_props(self.table@);
            }
            let l: usize = self.num_vars;
            let ghost pre = self.table@;
            self.table.push((ident, l as u16));
            self.num_vars += 1;
            proof {
                assert(self.table@.drop_last() =~= pre);
                lemma_assoc_map_props(self.table@);
            }
        }
    }

    /// Registers a label: inserts or overwrites unconditionally, binding the
    /// name to the given line index, and counts it.
    pub fn add_label(&mut self, k: String, v: usize)
        requires
            old(self).wf(),
            v <= 0xFFFF,
            old(self)@.labels < usize::MAX,
        ensures
            final(self).wf(),
            final(self)@ == add_label_spec(old(self)@, k@, v as nat),
    {
        match self.find(&k) {
            Some(i) => {
                proof {
                    lemma_assoc_map_props(self.table@);
                }
                let ghost pre = self.table@;
                self.table[i] = (k, v as u16);
                self.labels += 1;
                proof {
                    lemma_assoc_map_update(pre, i as int, (k, v as u16));
                }
            },
            None => {
                proof {
                    lemma_assoc_map_props(self.table@);
                }
                let ghost pre = self.table@;
                self.table.push((k, v as u16));
                self.labels += 1;
                proof {
                    assert(self.table@.drop_last() =~= pre);
                    lemma_assoc_map_props(self.table@);
                }
            },
        }
    }

    /// Records a numeric literal operand so the memory can later be sized
    /// from the observed address bounds.
    pub fn observe_literal(&mut self, val: u16)
        requires
            old(self).wf(),
        ensures
            final(self).wf(),
            final(self)@ == observe_literal_spec(old(self)@, val),
    {
        if !self.lit_seen || val < self.min_addr {
            self.min_addr = val;
        }
        if !self.lit_seen || val > self.max_addr {
            self.max_addr = val;
        }
        self.lit_seen = true;
    }

    /// How many distinct variables were registered.
    pub fn var_count(&self) -> (r: usize)
        ensures
            r == self@.num_vars,
    {
        self.num_vars
    }

    /// Smallest numeric literal operand seen so far (0 when none was).
    pub fn min_addr(&self) -> (r: u16)
        ensures
            r == self@.min_addr,
    {
        self.min_addr
    }

    /// Largest numeric literal operand seen so far (0 when none was).
    pub fn max_addr(&self) -> (r: u16)
        ensures
            r == self@.max_addr,
    {
        self.max_addr
    }

    /// Resolves an identifier to its address: 0 for `ACC`, 1 for `IX`, the
    /// stored address for a registered name, and an `UnresolvedIdentifier`
    /// error exactly when the name is absent.
    pub fn get(&self, key: String) -> (r: Result<u16, AsmErrorKind>)
        requires
            self.wf(),
        ensures
            match r {
                Ok(v) => resolve_spec(self@.table, key@) == Some(v),
                Err(e) => resolve_spec(self@.table, key@) is None && e
                    == AsmErrorKind::UnresolvedIdentifier,
            },
    {
        let acc: String = "ACC".to_owned();
        let ix: String = "IX".to_owned();
        if key == acc {
            Ok(0)
        } else if key == ix {
            Ok(1)
        } else {
            match self.find(&key) {
                Some(i) => Ok(self.table[i].1),
                None => Err(AsmErrorKind::UnresolvedIdentifier),
            }
        }
    }
}

/// The table model after registering each of `names` as a variable, in
/// order, left to right.
pub open spec fn register_vars(v: SymView, names: Seq<Seq<char>>) -> SymView
    decreases names.len(),
{
    if names.len() == 0 {
        v
    } else {
        register_vars(add_var_spec(v, names[0]), names.drop_first())
    }
}

/// Law: `ACC` and `IX` resolve to 0 and 1 against every table, declared or
/// not — they are never stored and always resolve specially.
pub proof fn lemma_reserved_registers(m: Map<Seq<char>, u16>)
    ensures
        resolve_spec(m, "ACC"@) == Some(0u16),
        resolve_spec(m, "IX"@) == Some(1u16),
{
    reveal_strlit("ACC");
    reveal_strlit("IX");
    assert("ACC"@.len() == 3);
    assert("IX"@.len() == 2);
    assert("IX"@ != "ACC"@);
}

/// Registering further variables never disturbs an identifier already in
/// the table.
proof fn lemma_register_vars_preserves(v: SymView, names: Seq<Seq<char>>, key: Seq<char>)
    requires
        v.table.contains_key(key),
    ensures
        register_vars(v, names).table.contains_key(key),
        register_vars(v, names).table[key] == v.table[key],
    decreases names.len(),
{
    if names.len() > 0 {
        lemma_register_vars_preserves(add_var_spec(v, names[0]), names.drop_first(), key);
    }
}

/// Law: valid variable identifiers registered in order against a table
/// holding `k` variables resolve to the consecutive addresses `k`, `k+1`,
/// and so on — allocation order, whatever labels the table also holds —
/// each keeping its address for good.
pub proof fn lemma_vars_resolve_in_order(v: SymView, names: Seq<Seq<char>>, i: int)
    requires
        v.num_vars + names.len() <= 0x10000,
        forall|j: int|
            0 <= j < names.len() ==> !(#[trigger] names[j] == "ACC"@) && !(names[j] == "IX"@)
                && !v.table.contains_key(names[j]),
        forall|j: int, k: int| 0 <= j < k < names.len() ==> names[j] != names[k],
        0 <= i < names.len(),
    ensures
        resolve_spec(register_vars(v, names).table, names[i]) == Some(((v.num_vars + i) as u16)),
    decreases names.len(),
{
    let v1 = add_var_spec(v, names[0]);
    assert(v1.table == v.table.insert(names[0], v.num_vars as u16));
    let rest = names.drop_first();
    if i == 0 {
        lemma_register_vars_preserves(v1, rest, names[0]);
        assert(register_vars(v, names).table[names[0]] == v.num_vars as u16);
    } else {
        assert(forall|j: int|
            0 <= j < rest.len() ==> !(#[trigger] rest[j] == "ACC"@) && !(rest[j] == "IX"@)
                && !v1.table.contains_key(rest[j]));
        lemma_vars_resolve_in_order(v1, rest, i - 1);
        assert(rest[i - 1] == names[i]);
    }
}

/// Law: variables registered in order into a fresh table resolve to
/// 0, 1, 2, ... in registration order.
pub proof fn lemma_fresh_vars_resolve_in_order(names: Seq<Seq<char>>, i: int)
    requires
        names.len() <= 0x10000,
        forall|j: int|
            0 <= j < names.len() ==> !(#[trigger] names[j] == "ACC"@) && !(names[j] == "IX"@),
        forall|j: int, k: int| 0 <= j < k < names.len() ==> names[j] != names[k],
        0 <= i < names.len(),
    ensures
        resolve_spec(register_vars(asm_init().sym, names).table, names[i]) == Some((i as u16)),
{
    lemma_vars_resolve_in_order(asm_init().sym, names, i);
}

/// The artifact assembly produces: an ordered instruction sequence, a
/// parallel sequence of (source line number, raw line text) debug records,
/// and the symbol table used to build them.
pub struct Code {
    pub table: SymbolTable,
    pub code: Vec<Instruction>,
    pub debug_info: Vec<(usize, String)>,
}

impl Code {
    /// The artifact's invariant: each instruction has its debug record, the
    /// sequence fits the 16-bit program counter, and arithmetic instructions
    /// only carry the operand modes the decoder produces.
    pub open spec fn wf(&self) -> bool {
        &&& self.code@.len() == self.debug_info@.len()
        &&& self.code@.len() <= 0xFFFF
        &&& forall|i: int|
            0 <= i < self.code@.len() ==> crate::rasm::instr::arith_mode_ok(#[trigger] self.code@[i])
    }

    pub fn new(table: SymbolTable, code: Vec<Instruction>, debug_info: Vec<(usize, String)>) -> (r:
        Code)
        ensures
            r.table == table,
            r.code == code,
            r.debug_info == debug_info,
    {
        Code { table, code, debug_info }
    }

    /// The instruction at index `i` with its debug record, or nothing when
    /// `i` lies past the end of the program.
    pub fn get(&self, i: usize) -> (r: Option<(&Instruction, &(usize, String))>)
        requires
            self.code@.len() == self.debug_info@.len(),
        ensures
            match r {
                Some(p) => i < self.code@.len() && *p.0 == self.code@[i as int] && *p.1
                    == self.debug_info@[i as int],
                None => i >= self.code@.len(),
            },
    {
        if i < self.code.len() {
            Some((&self.code[i], &self.debug_info[i]))
        } else {
            None
        }
    }
}

/// The assembler's running state: the symbol table model, the instructions
/// decoded so far, and their debug records.
pub struct AsmState {
    pub sym: SymView,
    pub code: Seq<Instruction>,
    pub debug: Seq<(usize, Seq<char>)>,
}

/// The state assembly starts from: an empty table, no instructions.
pub open spec fn asm_init() -> AsmState {
    AsmState {
        sym: SymView {
            table: Map::<Seq<char>, u16>::empty(),
            labels: 0,
            num_vars: 0,
            min_addr: 0,
            max_addr: 0,
            lit_seen: false,
        },
        code: Seq::empty(),
        debug: Seq::empty(),
    }
}

/// The character sequences held by a debug-record vector.
pub open spec fn debug_views(d: Seq<(usize, String)>) -> Seq<(usize, Seq<char>)> {
    d.map_values(|p: (usize, String)| (p.0, p.1@))
}

/// What one raw source line at index `idx` does to the assembler state: a
/// blank line and a whole-line comment are dropped; a trailing comment is
/// stripped; a line ending in `:` registers a label bound to the line index
/// and produces nothing; anything else decodes to an instruction with a
/// debug record, or stops assembly with a fatal diagnostic.
pub open spec fn asm_step(st: AsmState, raw: Seq<char>, idx: nat) -> Result<AsmState, AsmError> {
    let t = crate::rasm::text::spec_trim(raw);
    if t.len() == 0 {
        Ok(st)
    } else {
        let ci = crate::rasm::text::first_index(t, ';');
        if ci == 0 {
            Ok(st)
        } else {
            let l = if ci > 0 {
                t.subrange(0, ci)
            } else {
                t
            };
            if l.last() == ':' {
                Ok(
                    AsmState {
                        sym: add_label_spec(
                            st.sym,
                            crate::rasm::text::spec_trim(l.drop_last()),
                            idx,
                        ),
                        ..st
                    },
                )
            } else {
                match instr::decode_spec(st.sym, l).1 {
                    Ok(ins) => Ok(
                        AsmState {
                            sym: instr::decode_spec(st.sym, l).0,
                            code: st.code.push(ins),
                            debug: st.debug.push((idx as usize, l)),
                        },
                    ),
                    Err(k) => Err(AsmError { line: idx as usize, kind: k }),
                }
            }
        }
    }
}

/// Assembly of the lines from index `i` on, starting in state `st`.
pub open spec fn assemble_from(st: AsmState, lines: Seq<Seq<char>>, i: int) -> Result<
    AsmState,
    AsmError,
>
    decreases lines.len() - i,
{
    if i < 0 || i >= lines.len() {
        Ok(st)
    } else {
        match asm_step(st, lines[i], i as nat) {
            Ok(st2) => assemble_from(st2, lines, i + 1),
            Err(e) => Err(e),
        }
    }
}

/// What the single forward pass over the whole source yields.
pub open spec fn assemble_spec(lines: Seq<Seq<char>>) -> Result<AsmState, AsmError> {
    assemble_from(asm_init(), lines, 0)
}

/// Registering one variable grows the identifier map by at most one key.
pub proof fn lemma_add_var_dom(v: SymView, ident: Seq<char>)
    requires
        v.table.dom().finite(),
    ensures
        add_var_spec(v, ident).table.dom().finite(),
        add_var_spec(v, ident).table.dom().len() <= v.table.dom().len() + 1,
        v.table.dom().len() <= add_var_spec(v, ident).table.dom().len(),
{
    if !(ident == "ACC"@ || ident == "IX"@ || v.table.contains_key(ident)) {
        vstd::set::axiom_set_insert_finite(v.table.dom(), ident);
        vstd::set::axiom_set_insert_len(v.table.dom(), ident);
        assert(add_var_spec(v, ident).table.dom() =~= v.table.dom().insert(ident));
    }
}

/// Every instruction the line decoder can yield respects the decoder's
/// addressing-mode discipline.
pub proof fn lemma_decode_arith_ok(v: SymView, line: Seq<char>)
    ensures
        (instr::decode_spec(v, line).1 matches Ok(i) ==> instr::arith_mode_ok(i)),
{
    assert forall|op: Seq<char>, rhs: u16|
        instr::arith_mode_ok(#[trigger] instr::instr_direct_spec(op, rhs)) && instr::arith_mode_ok(
            #[trigger] instr::instr_imm_spec(op, rhs),
        ) by {
        instr::lemma_dispatch_arith_mode_ok(op, rhs);
    }
}

/// The assembler state assembled from its three parts.
pub open spec fn asm_state_of(sym: SymView, code: Seq<Instruction>, debug: Seq<(usize, Seq<char>)>) -> AsmState {
    AsmState { sym, code, debug }
}

/// The trimmed, comment-stripped text of a source line that produces an
/// instruction — and nothing for a blank line, a whole-line comment, or a
/// label line, which produce none.
pub open spec fn stmt_of(raw: Seq<char>) -> Option<Seq<char>> {
    let t = crate::rasm::text::spec_trim(raw);
    if t.len() == 0 {
        None
    } else {
        let ci = crate::rasm::text::first_index(t, ';');
        if ci == 0 {
            None
        } else {
            let l = if ci > 0 {
                t.subrange(0, ci)
            } else {
                t
            };
            if l.last() == ':' {
                None
            } else {
                Some(l)
            }
        }
    }
}

/// How a finished state's debug records extend a starting state's, over the
/// lines from `i` on: the old records stay untouched, every new record
/// carries a line index in range and that line's trimmed, comment-stripped
/// text, and every statement line in range has its record.
pub open spec fn debug_extends(st: AsmState, st2: AsmState, lines: Seq<Seq<char>>, i: int) -> bool {
    &&& st2.debug.len() >= st.debug.len()
    &&& st2.debug.subrange(0, st.debug.len() as int) == st.debug
    &&& forall|k: int|
        st.debug.len() <= k < st2.debug.len() ==> i <= (#[trigger] st2.debug[k]).0
            < lines.len() && stmt_of(lines[st2.debug[k].0 as int]) == Some(st2.debug[k].1)
    &&& forall|j: int|
        i <= j < lines.len() && (#[trigger] stmt_of(lines[j])) is Some ==> (exists|k: int|
            st.debug.len() <= k < st2.debug.len() && st2.debug[k] == ((
                j as usize,
                stmt_of(lines[j]).unwrap(),
            )))
}

/// Assembly from line `i` extends the debug records exactly by the
/// statements among the remaining lines.
proof fn lemma_debug_records_from(st: AsmState, lines: Seq<Seq<char>>, i: int)
    requires
        0 <= i <= lines.len(),
        lines.len() <= usize::MAX,
        assemble_from(st, lines, i) is Ok,
    ensures
        debug_extends(st, assemble_from(st, lines, i).unwrap(), lines, i),
    decreases lines.len() - i,
{
    if i >= lines.len() {
        assert(st.debug.subrange(0, st.debug.len() as int) =~= st.debug);
    } else {
        let stm = asm_step(st, lines[i], i as nat).unwrap();
        let st2 = assemble_from(st, lines, i).unwrap();
        lemma_debug_records_from(stm, lines, i + 1);
        assert(debug_extends(stm, st2, lines, i + 1));
        if stmt_of(lines[i]) is Some {
            let l = stmt_of(lines[i]).unwrap();
            assert(stm.debug == st.debug.push((i as usize, l)));
            assert(st2.debug.subrange(0, stm.debug.len() as int) == stm.debug);
            assert(st2.debug.subrange(0, st.debug.len() as int) =~= st.debug);
            assert(st2.debug[st.debug.len() as int] == stm.debug[st.debug.len() as int]);
            assert(st2.debug[st.debug.len() as int] == (i as usize, l));
            assert forall|j: int|
                i <= j < lines.len() && (#[trigger] stmt_of(lines[j])) is Some implies (exists|
                k: int,
            |
                st.debug.len() <= k < st2.debug.len() && st2.debug[k] == ((
                    j as usize,
                    stmt_of(lines[j]).unwrap(),
                ))) by {
                if j == i {
                    assert(st2.debug[st.debug.len() as int] == ((
                        j as usize,
                        stmt_of(lines[j]).unwrap(),
                    )));
                }
            }
            assert(st2.debug.len() >= st.debug.len());
            assert(st2.debug.subrange(0, st.debug.len() as int) == st.debug);
            assert forall|k: int|
                st.debug.len() <= k < st2.debug.len() implies i <= (#[trigger] st2.debug[k]).0
                < lines.len() && stmt_of(lines[st2.debug[k].0 as int]) == Some(
                st2.debug[k].1,
            ) by {
                if k < stm.debug.len() {
                    assert(st2.debug[k] == stm.debug[k]);
                    assert(k == st.debug.len());
                }
            }
        } else {
            assert(stm.debug == st.debug);
        }
    }
}

/// Law: round trip — on a successful assembly the debug records reproduce,
/// in order and under its own line index, exactly the trimmed,
/// comment-stripped text of every source line that is not blank, not a
/// whole-line comment and not a label.
pub proof fn lemma_debug_round_trip(lines: Seq<Seq<char>>)
    requires
        lines.len() <= usize::MAX,
        assemble_spec(lines) is Ok,
    ensures
        debug_extends(asm_init(), assemble_spec(lines).unwrap(), lines, 0),
{
    lemma_debug_records_from(asm_init(), lines, 0);
}

/// What a finished assembly must return, given the model's verdict on the
/// source lines: on success, an artifact carrying exactly the model's
/// symbol table, instructions and debug records; on a fatal line, that
/// line's diagnostic.
pub open spec fn build_code_post(lines: Seq<Seq<char>>, r: Result<Code, AsmError>) -> bool {
    match assemble_spec(lines) {
        Ok(st) => r matches Ok(c) && c.table@ == st.sym && c.table.wf() && c.code@ == st.code
            && debug_views(c.debug_info@) == st.debug && c.wf(),
        Err(e) => r == Err::<Code, AsmError>(e),
    }
}

/// Everything the assembly loop maintains: the table's invariants, the
/// growth bounds that keep every counter within its machine limits, the
/// parallel-sequence invariant, and the fold equation tying the state built
/// so far to the whole source's model.
pub open spec fn build_inv(
    table: SymbolTable,
    code: Seq<Instruction>,
    debug: Seq<(usize, String)>,
    speclines: Seq<Seq<char>>,
    index: int,
) -> bool {
    &&& table.wf()
    &&& table@.table.dom().len() <= index
    &&& table@.num_vars <= table@.table.dom().len()
    &&& table@.labels <= index
    &&& code.len() == debug.len()
    &&& code.len() <= index
    &&& forall|j: int| 0 <= j < code.len() ==> instr::arith_mode_ok(#[trigger] code[j])
    &&& assemble_spec(speclines) == assemble_from(
        asm_state_of(table@, code, debug_views(debug)),
        speclines,
        index,
    )
}

/// Assembles the source text in one forward pass, exactly as
/// [`assemble_spec`] states: the resulting artifact holds the decoded
/// instructions, a debug record per instruction carrying the line index and
/// the trimmed, comment-stripped line text, and the symbol table that was
/// built along the way.
pub fn build_code(source: &str) -> (r: Result<Code, AsmError>)
    requires
        crate::rasm::text::split_lines(source@).len() <= 0xFFFF,
    ensures
        build_code_post(crate::rasm::text::split_lines(source@), r),
        r matches Ok(c) ==> c.table@.num_vars <= 0xFFFF,
{
    let mut table = SymbolTable::new();
    let mut code: Vec<Instruction> = Vec::new();
    let mut debug_info: Vec<(usize, String)> = Vec::new();
    let lines = crate::rasm::text::split_into_lines(source);
    let ghost speclines = crate::rasm::text::split_lines(source@);
    proof {
        assert(debug_views(debug_info@) =~= asm_init().debug);
        assert(code@ =~= asm_init().code);
    }
    let mut index: usize = 0;
    while index < lines.len()
        invariant
            speclines == crate::rasm::text::split_lines(source@),
            crate::rasm::text::views_of(lines@) == speclines,
            speclines.len() <= 0xFFFF,
            index <= lines@.len(),
            lines@.len() == speclines.len(),
            build_inv(table, code@, debug_info@, speclines, index as int),
        decreases lines@.len() - index,
    {
        let ghost st_pre = AsmState { sym: table@, code: code@, debug: debug_views(debug_info@) };
        proof {
            assert(lines@[index as int]@ == speclines[index as int]);
        }
        let raw: &str = lines[index].as_str();
        let t: &str = crate::rasm::text::trimmed(raw);
        let t_len = t.unicode_len();
        if t_len == 0 {
            index += 1;
        } else {
            let found = crate::rasm::text::find_char(t, ';');
            let whole_comment = match found {
                Some(ci) => ci == 0,
                None => false,
            };
            if whole_comment {
                index += 1;
            } else {
                let l: &str = match found {
                    Some(ci) => t.substring_char(0, ci),
                    None => t,
                };
                let l_len = l.unicode_len();
                if l.get_char(l_len - 1) == ':' {
                    let name: String = crate::rasm::text::trimmed(
                        l.substring_char(0, l_len - 1),
                    ).to_owned();
                    proof {
                        assert(l@.subrange(0, l@.len() - 1) =~= l@.drop_last());
                    }
                    table.add_label(name, index);
                    proof {
                        vstd::set::axiom_set_insert_finite(st_pre.sym.table.dom(), name@);
                        vstd::set::axiom_set_insert_len(st_pre.sym.table.dom(), name@);
                        assert(table@.table.dom() =~= st_pre.sym.table.dom().insert(name@));
                    }
                    index += 1;
                } else {
                    match instr::str_to_instr(&mut table, l) {
                        Ok(ins) => {
                            code.push(ins);
                            debug_info.push((index, l.to_owned()));
                            proof {
                                lemma_decode_arith_ok(st_pre.sym, l@);
                                instr::lemma_decode_sym_growth(st_pre.sym, l@);
                                assert(debug_views(debug_info@) =~= st_pre.debug.push(
                                    (index as usize, l@),
                                ));
                            }
                            index += 1;
                        },
                        Err(k) => {
                            proof {
                                assert(asm_step(st_pre, speclines[index as int], index as nat)
                                    == Err::<AsmState, AsmError>(AsmError { line: index, kind: k }));
                                assert(assemble_spec(speclines) == Err::<AsmState, AsmError>(
                                    AsmError { line: index, kind: k },
                                ));
                            }
                            return Err(AsmError { line: index, kind: k });
                        },
                    }
                }
            }
        }
    }
    let c = Code::new(table, code, debug_info);
    Ok(c)
}

/// What a full run must return, given the model's verdict on the source:
/// a fatal assembly diagnostic passes through; otherwise the machine boots
/// from the assembled program with the supplied input and runs for at most
/// `fuel` instructions, exactly as [`crate::rasm::exec::run_model`] states.
pub open spec fn run_post(
    lines: Seq<Seq<char>>,
    style: crate::DisplayStyle,
    input: Seq<u8>,
    fuel: nat,
    r: Result<(crate::rasm::computer::Computer, crate::rasm::exec::ExecEnd), AsmError>,
) -> bool {
    match assemble_spec(lines) {
        Ok(st) => {
            &&& r matches Ok(p)
            &&& (r.unwrap().0.cpu@, r.unwrap().1) == crate::rasm::exec::run_model(
                crate::rasm::exec::boot_model(st.sym, style, input),
                st.code,
                fuel,
            )
            &&& r.unwrap().0.cpu.code.code@ == st.code
            &&& debug_views(r.unwrap().0.cpu.code.debug_info@) == st.debug
            &&& r.unwrap().0.cpu.code.table@ == st.sym
            &&& r.unwrap().0.disp_style == style
        },
        Err(e) => r == Err::<(crate::rasm::computer::Computer, crate::rasm::exec::ExecEnd), AsmError>(e),
    }
}

/// Assembles the source and runs the resulting program to its stop, with
/// the given input bytes and step allowance.
pub fn run(source: &str, style: crate::DisplayStyle, input: Vec<u8>, fuel: usize) -> (r: Result<
    (crate::rasm::computer::Computer, crate::rasm::exec::ExecEnd),
    AsmError,
>)
    requires
        crate::rasm::text::split_lines(source@).len() <= 0xFFFF,
    ensures
        run_post(crate::rasm::text::split_lines(source@), style, input@, fuel as nat, r),
{
    match build_code(source) {
        Ok(code) => Ok(crate::rasm::exec::execute(code, style, input, fuel)),
        Err(e) => Err(e),
    }
}

/// Overwriting the entry at `i` with a pair carrying the same key leaves the
/// association map with the same keys and only that binding changed.
proof fn lemma_assoc_map_update(s: Seq<(String, u16)>, i: int, e: (String, u16))
    requires
        keys_distinct(s),
        0 <= i < s.len(),
        s[i].0@ == e.0@,
    ensures
        keys_distinct(s.update(i, e)),
        assoc_map(s.update(i, e)) == assoc_map(s).insert(e.0@, e.1),
        s.update(i, e).len() == s.len(),
    decreases s.len(),
{
    let t = s.update(i, e);
    assert(keys_distinct(t));
    lemma_assoc_map_props(s);
    lemma_assoc_map_props(t);
    if i == s.len() - 1 {
        assert(t.drop_last() =~= s.drop_last());
        assert(assoc_map(t) =~= assoc_map(s).insert(e.0@, e.1));
    } else {
        assert(t.drop_last() =~= s.drop_last().update(i, e));
        lemma_assoc_map_update(s.drop_last(), i, e);
        assert(t.last() == s.last());
        assert(assoc_map(t) =~= assoc_map(s).insert(e.0@, e.1));
    }
}

} // verus!
