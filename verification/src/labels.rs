//! The label table, and the first pass, which fills it.

use crate::source::{
    instruction_count, kind_of, label_name, label_of, lemma_instruction_count_step, LineKind,
};
use vstd::hash_map::StringHashMap;
use vstd::prelude::*;

verus! {

/// The addresses that labels stand for. A name has at most one address;
/// defining it again replaces the address it had.
pub struct LabelTable {
    map: StringHashMap<u16>,
}

impl View for LabelTable {
    type V = Map<Seq<char>, u16>;

    closed spec fn view(&self) -> Map<Seq<char>, u16> {
        self.map@
    }
}

impl LabelTable {
    /// A table without labels.
    pub fn new() -> (table: Self)
        ensures
            table@ == Map::<Seq<char>, u16>::empty(),
    {
        LabelTable { map: StringHashMap::new() }
    }

    /// Binds a name to an address, in place of any address it had.
    pub fn define(&mut self, name: String, address: u16)
        ensures
            final(self)@ == old(self)@.insert(name@, address),
    {
        self.map.insert(name, address);
    }

    /// The address of a name, if the table has the name. Names are compared
    /// as they are written: case counts.
    pub fn resolve(&self, name: &str) -> (address: Option<u16>)
        ensures
            address == if self@.contains_key(name@) {
                Some(self@[name@])
            } else {
                None
            },
    {
        match self.map.get(name) {
            Some(address) => Some(*address),
            None => None,
        }
    }
}

/// A count of instructions as a sixteen-bit address. A count that sixteen
/// bits cannot hold is held as the largest address; no program that fits
/// the image comes near it.
pub open spec fn address_of(count: nat) -> u16 {
    if count <= u16::MAX {
        count as u16
    } else {
        u16::MAX
    }
}

/// The label table of a program: each label line binds its name to the
/// number of instruction lines before it, which is the address of the
/// instruction that follows it. Of two lines that define one name, the later
/// one counts.
pub open spec fn label_table(lines: Seq<Seq<Seq<char>>>) -> Map<Seq<char>, u16>
    decreases lines.len(),
{
    if lines.len() == 0 {
        Map::empty()
    } else {
        let earlier = label_table(lines.drop_last());
        if kind_of(lines.last()) == LineKind::Label {
            earlier.insert(
                label_name(lines.last()),
                address_of(instruction_count(lines.drop_last())),
            )
        } else {
            earlier
        }
    }
}

/// Whether the line at index `n` defines the label `name`.
pub open spec fn defines(lines: Seq<Seq<Seq<char>>>, n: int, name: Seq<char>) -> bool {
    0 <= n < lines.len() && kind_of(lines[n]) == LineKind::Label && label_name(lines[n]) == name
}

/// The table has exactly the names that some line defines.
pub proof fn lemma_label_table_names(lines: Seq<Seq<Seq<char>>>, name: Seq<char>)
    ensures
        label_table(lines).contains_key(name) <==> exists|n: int| defines(lines, n, name),
    decreases lines.len(),
{
    if lines.len() > 0 {
        let earlier = lines.drop_last();
        lemma_label_table_names(earlier, name);
        if label_table(lines).contains_key(name) {
            if defines(lines, lines.len() - 1, name) {
            } else {
                let n = choose|n: int| defines(earlier, n, name);
                assert(defines(lines, n, name));
            }
        }
        if exists|n: int| defines(lines, n, name) {
            let n = choose|n: int| defines(lines, n, name);
            if n < lines.len() - 1 {
                assert(defines(earlier, n, name));
            }
        }
    }
}

/// A name stands for the address at its last definition: the number of
/// instruction lines before that line, which is where the next instruction
/// goes. Earlier definitions of the name do not count.
pub proof fn lemma_label_table_last_definition(
    lines: Seq<Seq<Seq<char>>>,
    n: int,
    name: Seq<char>,
)
    requires
        defines(lines, n, name),
        forall|m: int| n < m < lines.len() ==> !defines(lines, m, name),
    ensures
        label_table(lines).contains_key(name),
        label_table(lines)[name] == address_of(instruction_count(lines.take(n))),
    decreases lines.len(),
{
    let earlier = lines.drop_last();
    if n == lines.len() - 1 {
        assert(lines.take(n) =~= earlier);
    } else {
        assert(!defines(lines, lines.len() - 1, name));
        assert(defines(earlier, n, name));
        assert forall|m: int| n < m < earlier.len() implies !defines(earlier, m, name) by {
            assert(!defines(lines, m, name));
        }
        lemma_label_table_last_definition(earlier, n, name);
        assert(earlier.take(n) =~= lines.take(n));
    }
}

/// The first pass. It counts the instruction lines and binds every label to
/// the count at its line.
pub fn build_label_table(lines: &Vec<Vec<String>>) -> (table: LabelTable)
    ensures
        table@ == label_table(lines.deep_view()),
{
    let ghost source = lines.deep_view();
    let mut table = LabelTable::new();
    let mut count: usize = 0;
    let mut i: usize = 0;
    while i < lines.len()
        invariant
            i <= lines.len(),
            source == lines.deep_view(),
            count == instruction_count(source.take(i as int)),
            count <= i,
            table@ == label_table(source.take(i as int)),
        decreases lines.len() - i,
    {
        let line = &lines[i];
        proof {
            assert(source[i as int] == line.deep_view());
            assert(source.take(i + 1).drop_last() =~= source.take(i as int));
            lemma_instruction_count_step(source, i as int);
        }
        match label_of(line) {
            Some(name) => {
                let address: u16 = if count <= 0xFFFF {
                    count as u16
                } else {
                    0xFFFF
                };
                table.define(name, address);
            },
            None => {
                if line.len() > 0 {
                    count += 1;
                }
            },
        }
        i += 1;
    }
    assert(source.take(i as int) =~= source);
    table
}

} // verus!
