//! The define table: each defined name and the text that replaces it.

use vstd::hash_map::StringHashMap;
use vstd::prelude::*;
use vstd::string::StringExecFns;

verus! {

/// The names that are defined for the ports of the machine, each with the
/// number of its port: the screen, then the character display, then the
/// number display, the random number generator and the controller.
pub open spec fn port_defines() -> Map<Seq<char>, Seq<char>> {
    Map::<Seq<char>, Seq<char>>::empty().insert("SCR_PIX_X"@, "240"@).insert(
        "SCR_PIX_Y"@,
        "241"@,
    ).insert("SCR_DRAW_PIX"@, "242"@).insert("SCR_CLR_PIX"@, "243"@).insert(
        "SCR_GET_PIX"@,
        "244"@,
    ).insert("SCR_PUSH"@, "245"@).insert("SCR_CLR"@, "246"@).insert(
        "CHAR_DISP_PUSH"@,
        "247"@,
    ).insert("CHAR_DISP_DRAW"@, "248"@).insert("CHAR_DISP_CLR"@, "249"@).insert(
        "NUM_DISP_SHOW"@,
        "250"@,
    ).insert("NUM_DISP_CLR"@, "251"@).insert("NUM_DISP_SIGNED"@, "252"@).insert(
        "NUM_DISP_UNSIGNED"@,
        "253"@,
    ).insert("RNG"@, "254"@).insert("CONTROLLER"@, "255"@)
}

/// Defines by name. A define gives a name the text that is written in its
/// place, and once defined a name keeps its text.
pub struct Defines {
    table: StringHashMap<String>,
}

impl View for Defines {
    type V = Map<Seq<char>, Seq<char>>;

    /// The text of each name that is defined.
    closed spec fn view(&self) -> Map<Seq<char>, Seq<char>> {
        self.table@.map_values(|text: String| text@)
    }
}

impl Defines {
    /// A table without defines.
    pub fn new() -> (defines: Defines)
        ensures
            defines@ == Map::<Seq<char>, Seq<char>>::empty(),
    {
        let defines = Defines { table: StringHashMap::new() };
        proof {
            assert(defines@ =~= Map::<Seq<char>, Seq<char>>::empty());
        }
        defines
    }

    /// Gives a name its text, whether or not it had one.
    fn put(&mut self, name: &str, text: &str)
        ensures
            final(self)@ == old(self)@.insert(name@, text@),
    {
        self.table.insert(String::from_str(name), String::from_str(text));
        proof {
            assert(final(self)@ =~= old(self)@.insert(name@, text@));
        }
    }

    /// A table with the names of the machine's ports.
    pub fn ports() -> (defines: Defines)
        ensures
            defines@ == port_defines(),
    {
        let mut defines = Defines::new();
        defines.put("SCR_PIX_X", "240");
        defines.put("SCR_PIX_Y", "241");
        defines.put("SCR_DRAW_PIX", "242");
        defines.put("SCR_CLR_PIX", "243");
        defines.put("SCR_GET_PIX", "244");
        defines.put("SCR_PUSH", "245");
        defines.put("SCR_CLR", "246");
        defines.put("CHAR_DISP_PUSH", "247");
        defines.put("CHAR_DISP_DRAW", "248");
        defines.put("CHAR_DISP_CLR", "249");
        defines.put("NUM_DISP_SHOW", "250");
        defines.put("NUM_DISP_CLR", "251");
        defines.put("NUM_DISP_SIGNED", "252");
        defines.put("NUM_DISP_UNSIGNED", "253");
        defines.put("RNG", "254");
        defines.put("CONTROLLER", "255");
        defines
    }

    /// Defines a name, unless it is defined already: then the table stays as
    /// it is. Returns whether the name was defined.
    pub fn define(&mut self, name: String, text: String) -> (defined: bool)
        ensures
            defined == !old(self)@.contains_key(name@),
            defined ==> final(self)@ == old(self)@.insert(name@, text@),
            !defined ==> final(self)@ == old(self)@,
    {
        if self.table.contains_key(name.as_str()) {
            false
        } else {
            let ghost key = name@;
            let ghost value = text@;
            self.table.insert(name, text);
            proof {
                assert(final(self)@ =~= old(self)@.insert(key, value));
            }
            true
        }
    }

    /// Returns whether the name is defined.
    pub fn contains(&self, name: &str) -> (found: bool)
        ensures
            found == self@.contains_key(name@),
    {
        self.table.contains_key(name)
    }

    /// Returns the text of a name, or `None` where the name is not defined.
    pub fn get(&self, name: &str) -> (text: Option<&String>)
        ensures
            match text {
                Some(text) => self@.contains_key(name@) && text@ == self@[name@],
                None => !self@.contains_key(name@),
            },
    {
        self.table.get(name)
    }
}

} // verus!
