use vstd::prelude::*;
use vstd::string::StringExecFns;

verus! {

/// The commands that the shell carries out itself.
#[derive(Clone, Copy, Debug, PartialEq, Eq, Structural)]
pub enum BuiltinKind {
    Echo,
    Something,
}

/// The views of a list of string slices.
pub open spec fn texts(words: Seq<&str>) -> Seq<Seq<char>> {
    Seq::new(words.len(), |k: int| words[k]@)
}

/// The views of a list of strings.
pub open spec fn lines(printed: Seq<String>) -> Seq<Seq<char>> {
    Seq::new(printed.len(), |k: int| printed[k]@)
}

/// The words with one blank between each two of them.
pub open spec fn joined(words: Seq<Seq<char>>) -> Seq<char>
    decreases words.len(),
{
    if words.len() == 0 {
        Seq::empty()
    } else if words.len() == 1 {
        words[0]
    } else {
        joined(words.drop_last()) + seq![' '] + words.last()
    }
}

/// A command of the shell: given its arguments, it says what it prints to
/// the terminal, one text for each print.
pub trait ShellBuiltin {
    /// The texts that the command prints for these arguments.
    spec fn output(&self, arguments: Seq<Seq<char>>) -> Seq<Seq<char>>;

    /// Carries the command out and returns what it prints.
    fn execute(&self, arguments: Vec<&str>) -> (printed: Vec<String>)
        ensures
            lines(printed@) == self.output(texts(arguments@)),
    ;
}

/// Prints its arguments, separated by blanks.
pub struct Echo;

impl ShellBuiltin for Echo {
    open spec fn output(&self, arguments: Seq<Seq<char>>) -> Seq<Seq<char>> {
        seq![joined(arguments)]
    }

    fn execute(&self, arguments: Vec<&str>) -> (printed: Vec<String>) {
        let mut full_string = String::new();
        let mut k: usize = 0;
        while k < arguments.len()
            invariant
                k <= arguments@.len(),
                full_string@ == joined(texts(arguments@).subrange(0, k as int)),
            decreases arguments@.len() - k,
        {
            let ghost before = texts(arguments@).subrange(0, k as int);
            let ghost after = texts(arguments@).subrange(0, k + 1);
            if k > 0 {
                full_string.append(" ");
                proof {
                    reveal_strlit(" ");
                    assert(" "@ =~= seq![' ']);
                }
            }
            full_string.append(arguments[k]);
            proof {
                assert(after.drop_last() =~= before);
                assert(after.last() == arguments@[k as int]@);
                if k == 0 {
                    assert(full_string@ =~= after[0]);
                }
            }
            k += 1;
        }
        assert(texts(arguments@).subrange(0, k as int) =~= texts(arguments@));
        let mut printed: Vec<String> = Vec::new();
        printed.push(full_string);
        assert(lines(printed@) =~= seq![joined(texts(arguments@))]);
        printed
    }
}

/// Prints nothing.
pub struct Something;

impl ShellBuiltin for Something {
    open spec fn output(&self, arguments: Seq<Seq<char>>) -> Seq<Seq<char>> {
        Seq::empty()
    }

    fn execute(&self, arguments: Vec<&str>) -> (printed: Vec<String>) {
        let printed: Vec<String> = Vec::new();
        assert(lines(printed@) =~= Seq::<Seq<char>>::empty());
        printed
    }
}

impl BuiltinKind {
    /// The texts that the command prints for these arguments.
    pub open spec fn output(self, arguments: Seq<Seq<char>>) -> Seq<Seq<char>> {
        match self {
            BuiltinKind::Echo => Echo.output(arguments),
            BuiltinKind::Something => Something.output(arguments),
        }
    }

    /// Carries the command out and returns what it prints.
    pub fn execute(self, arguments: Vec<&str>) -> (printed: Vec<String>)
        ensures
            lines(printed@) == self.output(texts(arguments@)),
    {
        match self {
            BuiltinKind::Echo => Echo.execute(arguments),
            BuiltinKind::Something => Something.execute(arguments),
        }
    }
}

/// The table of commands, by name: a hash map of `hashbrown`.
#[verifier::external_body]
pub struct BuiltinTable {
    map: hashbrown::HashMap<String, BuiltinKind>,
}

/// The names in a table and the command that each stands for.
pub uninterp spec fn table_entries(table: BuiltinTable) -> Map<Seq<char>, BuiltinKind>;

/// The table without entries.
pub open spec fn no_entries() -> Map<Seq<char>, BuiltinKind> {
    Map::empty()
}

/// Makes an empty table with `hashbrown`'s `HashMap::with_capacity`: the
/// map holds no entry, whatever the capacity.
#[verifier::external_body]
fn table_with_capacity(capacity: usize) -> (made: BuiltinTable)
    ensures
        table_entries(made) == no_entries(),
{
    BuiltinTable { map: hashbrown::HashMap::with_capacity(capacity) }
}

/// Enters a command with `hashbrown`'s `HashMap::insert`: afterwards the
/// name stands for the command, every other name for what it stood for
/// before, and the command that the name stood for before is returned.
#[verifier::external_body]
fn table_insert(table: &mut BuiltinTable, name: String, kind: BuiltinKind) -> (previous: Option<
    BuiltinKind,
>)
    ensures
        table_entries(*final(table)) == table_entries(*old(table)).insert(name@, kind),
        previous == if table_entries(*old(table)).contains_key(name@) {
            Some(table_entries(*old(table))[name@])
        } else {
            None::<BuiltinKind>
        },
{
    table.map.insert(name, kind)
}

/// Looks a name up with `hashbrown`'s `HashMap::get`: the command that the
/// name stands for, if it stands for one.
#[verifier::external_body]
fn table_get(table: &BuiltinTable, name: &str) -> (kind: Option<BuiltinKind>)
    ensures
        kind == if table_entries(*table).contains_key(name@) {
            Some(table_entries(*table)[name@])
        } else {
            None::<BuiltinKind>
        },
{
    table.map.get(name).copied()
}

/// The commands of the shell by name: `echo` and `something`.
pub open spec fn builtin_names() -> Map<Seq<char>, BuiltinKind> {
    Map::<Seq<char>, BuiltinKind>::empty().insert("echo"@, BuiltinKind::Echo).insert(
        "something"@,
        BuiltinKind::Something,
    )
}

/// The command that a name stands for in the shell.
pub open spec fn builtin_named(name: Seq<char>) -> Option<BuiltinKind> {
    if name == "echo"@ {
        Some(BuiltinKind::Echo)
    } else if name == "something"@ {
        Some(BuiltinKind::Something)
    } else {
        None
    }
}

impl BuiltinTable {
    /// The table of the shell's commands.
    pub fn builtins() -> (table: BuiltinTable)
        ensures
            table_entries(table) == builtin_names(),
    {
        let mut table = table_with_capacity(1);
        let _ = table_insert(&mut table, "echo".to_owned(), BuiltinKind::Echo);
        let _ = table_insert(&mut table, "something".to_owned(), BuiltinKind::Something);
        table
    }

    /// The command of that name, if the table has one.
    pub fn get(&self, name: &str) -> (kind: Option<BuiltinKind>)
        ensures
            kind == if table_entries(*self).contains_key(name@) {
                Some(table_entries(*self)[name@])
            } else {
                None::<BuiltinKind>
            },
    {
        table_get(self, name)
    }
}

/// Looking a name up in the shell's table finds `echo` and `something`
/// and nothing else.
pub proof fn law_builtin_names(name: Seq<char>)
    ensures
        builtin_names().contains_key(name) <==> builtin_named(name) is Some,
        builtin_names().contains_key(name) ==> builtin_named(name) == Some(builtin_names()[name]),
{
    reveal_strlit("echo");
    reveal_strlit("something");
    assert("echo"@.len() != "something"@.len());
}

} // verus!
