//! Path variables: `:name` segments of a URL that arguments of the form
//! `:name=value` fill in.

use vstd::prelude::*;
use vstd::string::*;
use vstd::hash_map::StringHashMap;
use vstd::slice::slice_subrange;
use crate::scan::{first, first_from};
use crate::text::{
    among, chars_of, contains, contains_text, join, occurs, join_spec, replace, replace_spec, split_on, split_once,
    split_once_spec, split_spec, starts_with, str_views, texts,
};

verus! {

/// The arguments of an HTTPie call in which path variables are to be
/// filled in.
#[derive(Debug)]
pub struct PathVarCommand {
    /// The arguments as they were given
    pub args: Vec<String>,
}

/// The values given to path variables, by variable.
pub struct VarValues {
    map: StringHashMap<String>,
}

impl View for VarValues {
    type V = Map<Seq<char>, Seq<char>>;

    closed spec fn view(&self) -> Map<Seq<char>, Seq<char>> {
        self.map@.map_values(|value: String| value@)
    }
}

impl VarValues {
    /// No values.
    pub fn new() -> (r: VarValues)
        ensures
            r@ == Map::<Seq<char>, Seq<char>>::empty(),
    {
        let map = StringHashMap::<String>::new();
        assert(map@.map_values(|value: String| value@) =~= Map::<Seq<char>, Seq<char>>::empty());
        VarValues { map }
    }

    /// Gives `name` the value `value`, in place of any value it had.
    pub fn insert(&mut self, name: String, value: String)
        ensures
            final(self)@ == old(self)@.insert(name@, value@),
    {
        let ghost before = self.map@;
        self.map.insert(name, value);
        assert(before.insert(name@, value).map_values(|value: String| value@) =~= before.map_values(
            |value: String| value@,
        ).insert(name@, value@));
    }

    /// The value of `name`, if it has one.
    pub fn get(&self, name: &str) -> (r: Option<&String>)
        ensures
            match r {
                Some(value) => self@.contains_key(name@) && self@[name@] == value@,
                None => !self@.contains_key(name@),
            },
    {
        self.map.get(name)
    }

    /// How many variables have a value.
    pub fn len(&self) -> (r: usize)
        ensures
            r == self@.len(),
    {
        assert(self.map@.map_values(|value: String| value@).dom() =~= self.map@.dom());
        self.map.len()
    }
}

/// Whether `char::is_alphanumeric` holds of a character.
pub uninterp spec fn alphanumeric(c: char) -> bool;

/// `char::is_alphanumeric` tells whether the character is alphabetic or
/// numeric by its Unicode properties; it depends on the character alone.
/// Its result is named `alphanumeric`.
pub assume_specification[ char::is_alphanumeric ](c: char) -> (r: bool)
    ensures
        r == alphanumeric(c),
;

/// A character that the host part of a URL may hold, given whether it is
/// alphanumeric: a letter, a digit, `.`, `-` or `:`.
pub open spec fn host_char_given(c: char, is_alphanumeric: bool) -> bool {
    is_alphanumeric || c == '.' || c == '-' || c == ':'
}

/// A character that the host part of a URL may hold.
pub open spec fn host_char(c: char) -> bool {
    host_char_given(c, alphanumeric(c))
}

/// Whether `s` looks like a URL: it begins with `http://` or `https://`;
/// or it holds a `/`, and before the first one there are only host
/// characters; or it holds no `/` but a `:`, and only host characters.
pub open spec fn url_like(s: Seq<char>) -> bool {
    ||| "http://"@.is_prefix_of(s)
    ||| "https://"@.is_prefix_of(s)
    ||| match split_once_spec(s, '/') {
        Some(parts) => host_like(parts.0),
        None => host_like(s) && occurs(s, ":"@),
    }
}

/// Whether `host` holds only host characters.
pub open spec fn host_like(host: Seq<char>) -> bool {
    forall|k: int| 0 <= k < host.len() ==> host_char(#[trigger] host[k])
}

/// Whether a segment of a URL is a path variable: a `:` and at least one
/// more character.
pub open spec fn is_path_var(segment: Seq<char>) -> bool {
    ":"@.is_prefix_of(segment) && segment.len() > 1
}

/// The segments that are path variables.
pub open spec fn path_var_segments() -> spec_fn(Seq<char>) -> bool {
    |segment: Seq<char>| is_path_var(segment)
}

/// The items without repetitions: of equal items the first is kept.
pub open spec fn distinct(items: Seq<Seq<char>>) -> Seq<Seq<char>>
    decreases items.len(),
{
    if items.len() == 0 {
        Seq::empty()
    } else {
        let before = distinct(items.drop_last());
        if among(before, items.last()) {
            before
        } else {
            before.push(items.last())
        }
    }
}

/// The path variables of a URL, each once, in the order in which they
/// first occur.
pub open spec fn path_vars(url: Seq<char>) -> Seq<Seq<char>> {
    distinct(split_spec(url, '/').filter(path_var_segments()))
}

/// The variable and value that an argument assigns: it has the form
/// `name=value`, where `name` begins with `:` and is one of `vars`.
pub open spec fn assignment(arg: Seq<char>, vars: Seq<Seq<char>>) -> Option<
    (Seq<char>, Seq<char>),
> {
    match split_once_spec(arg, '=') {
        Some((name, value)) => if ":"@.is_prefix_of(name) && among(vars, name) {
            Some((name, value))
        } else {
            None
        },
        None => None,
    }
}

/// The values that the arguments assign to the variables: where a variable
/// is assigned twice, the later value stands.
pub open spec fn assigned(args: Seq<Seq<char>>, vars: Seq<Seq<char>>) -> Map<Seq<char>, Seq<char>>
    decreases args.len(),
{
    if args.len() == 0 {
        Map::empty()
    } else {
        let before = assigned(args.drop_last(), vars);
        match assignment(args.last(), vars) {
            Some((name, value)) => before.insert(name, value),
            None => before,
        }
    }
}

/// The arguments that assign no variable, in order.
pub open spec fn remaining(args: Seq<Seq<char>>, vars: Seq<Seq<char>>) -> Seq<Seq<char>>
    decreases args.len(),
{
    if args.len() == 0 {
        Seq::empty()
    } else {
        let before = remaining(args.drop_last(), vars);
        match assignment(args.last(), vars) {
            Some(_) => before,
            None => before.push(args.last()),
        }
    }
}

/// The URL after the variables were replaced one after the other, in
/// order, each one that has a value by its value wherever it occurs.
pub open spec fn replaced(url: Seq<char>, vars: Seq<Seq<char>>, values: Map<Seq<char>, Seq<char>>) -> Seq<
    char,
>
    decreases vars.len(),
{
    if vars.len() == 0 {
        url
    } else {
        let before = replaced(url, vars.drop_last(), values);
        if values.contains_key(vars.last()) {
            replace_spec(before, vars.last(), values[vars.last()])
        } else {
            before
        }
    }
}

/// Where the first argument stands that looks like a URL.
pub open spec fn url_index(args: Seq<Seq<char>>) -> Option<int> {
    first(args, |arg: Seq<char>| url_like(arg))
}

/// The arguments with the path variables filled in. The first argument
/// that looks like a URL is the URL. Where it has path variables, the
/// arguments behind it that assign one are taken out, and the variables
/// that were assigned are replaced in the URL. Arguments without a URL, or
/// with a URL without path variables, stay as they are.
pub open spec fn processed(args: Seq<Seq<char>>) -> Seq<Seq<char>> {
    match url_index(args) {
        None => args,
        Some(i) => {
            let vars = path_vars(args[i]);
            let rest = args.skip(i + 1);
            if vars.len() == 0 {
                args
            } else {
                args.take(i).push(replaced(args[i], vars, assigned(rest, vars))) + remaining(
                    rest,
                    vars,
                )
            }
        },
    }
}

impl PathVarCommand {
    /// The command line to hand to HTTPie: the processed arguments with a
    /// space between each two.
    pub fn run(&self) -> (r: String)
        ensures
            r@ == join_spec(processed(texts(self.args@)), " "@),
    {
        let result = self.process_command_line();
        join(&result, " ")
    }

    /// The arguments with the path variables filled in.
    pub fn process_command_line(&self) -> (r: Vec<String>)
        ensures
            texts(r@) == processed(texts(self.args@)),
    {
        let ghost all = texts(self.args@);
        let ghost p = |arg: Seq<char>| url_like(arg);
        let mut i: usize = 0;
        while i < self.args.len()
            invariant
                i <= self.args.len(),
                all == texts(self.args@),
                p == |arg: Seq<char>| url_like(arg),
                first(all, p) == first_from(all, p, i as int),
            decreases self.args.len() - i,
        {
            assert(all[i as int] == self.args@[i as int]@);
            if Self::is_url_like(self.args[i].as_str()) {
                return self.process_from(i);
            }
            i = i + 1;
        }
        Self::copy_args(&self.args, self.args.len())
    }

    /// The arguments with the path variables of the URL at `url_index`
    /// filled in.
    fn process_from(&self, url_index: usize) -> (r: Vec<String>)
        requires
            url_index < self.args@.len(),
        ensures
            texts(r@) == ({
                let args = texts(self.args@);
                let vars = path_vars(args[url_index as int]);
                let rest = args.skip(url_index + 1);
                if vars.len() == 0 {
                    args
                } else {
                    args.take(url_index as int).push(
                        replaced(args[url_index as int], vars, assigned(rest, vars)),
                    ) + remaining(rest, vars)
                }
            }),
    {
        let ghost all = texts(self.args@);
        let url = &self.args[url_index];
        assert(all[url_index as int] == url@);
        let path_vars = Self::extract_path_vars(url.as_str());
        if path_vars.len() == 0 {
            return Self::copy_args(&self.args, self.args.len());
        }
        let n = self.args.len();
        let rest = slice_subrange(self.args.as_slice(), url_index + 1, n);
        assert(texts(rest@) =~= all.skip(url_index + 1));
        let (var_values, mut remaining_args) = Self::process_var_assignments(rest, &path_vars);
        let processed_url = Self::replace_path_vars(url.as_str(), &path_vars, &var_values);
        let mut result = Self::copy_args(&self.args, url_index);
        let ghost head = texts(result@);
        let ghost tail = texts(remaining_args@);
        result.push(processed_url);
        result.append(&mut remaining_args);
        assert(texts(result@) =~= head.push(processed_url@) + tail);
        result
    }

    /// Copies of the first `n` arguments.
    fn copy_args(args: &Vec<String>, n: usize) -> (r: Vec<String>)
        requires
            n <= args@.len(),
        ensures
            texts(r@) == texts(args@).take(n as int),
            n == args@.len() ==> texts(r@) == texts(args@),
    {
        let mut copy: Vec<String> = Vec::new();
        let mut i: usize = 0;
        while i < n
            invariant
                i <= n <= args@.len(),
                copy@.len() == i,
                forall|j: int| 0 <= j < i ==> (#[trigger] copy@[j])@ == args@[j]@,
            decreases n - i,
        {
            copy.push(args[i].clone());
            i = i + 1;
        }
        assert(texts(copy@) =~= texts(args@).take(n as int));
        if n == args.len() {
            assert(texts(args@).take(n as int) =~= texts(args@));
        }
        copy
    }

    /// Whether `c` may stand in the host part of a URL, given whether it
    /// is alphanumeric.
    pub fn is_host_char(c: char, is_alphanumeric: bool) -> (r: bool)
        ensures
            r == host_char_given(c, is_alphanumeric),
    {
        is_alphanumeric || c == '.' || c == '-' || c == ':'
    }

    /// Whether `s` looks like a URL: a full URL with `http://` or
    /// `https://`; a host part of letters, digits, `.`, `-` and `:`
    /// followed by a `/` and a path; or, without a path, such a host part
    /// that holds a `:`, as in `localhost:8080` and `:8080`.
    pub fn is_url_like(s: &str) -> (r: bool)
        ensures
            r == url_like(s@),
    {
        if starts_with(s, "http://") || starts_with(s, "https://") {
            return true;
        }
        match split_once(s, '/') {
            Some((host, _)) => Self::is_host_like(host),
            None => Self::is_host_like(s) && contains(s, ":"),
        }
    }

    /// Whether `host` holds only host characters.
    pub fn is_host_like(host: &str) -> (r: bool)
        ensures
            r == host_like(host@),
    {
        let hv = chars_of(host);
        let mut k: usize = 0;
        while k < hv.len()
            invariant
                k <= hv.len(),
                hv@ == host@,
                forall|j: int| 0 <= j < k ==> host_char(#[trigger] hv@[j]),
            decreases hv.len() - k,
        {
            let c = hv[k];
            if !Self::is_host_char(c, c.is_alphanumeric()) {
                assert(!host_char(hv@[k as int]));
                return false;
            }
            k = k + 1;
        }
        true
    }

    /// The path variables of a URL, each once, in the order in which they
    /// first occur: the segments between slashes that begin with `:` and
    /// hold at least one more character.
    pub fn extract_path_vars(url: &str) -> (r: Vec<String>)
        ensures
            texts(r@) == path_vars(url@),
    {
        let parts = split_on(url, '/');
        let ghost all = str_views(parts@);
        let mut vars: Vec<String> = Vec::new();
        let mut i: usize = 0;
        proof {
            assert(all.take(0) =~= Seq::<Seq<char>>::empty());
            assert(texts(vars@) =~= Seq::<Seq<char>>::empty());
        }
        while i < parts.len()
            invariant
                i <= parts.len(),
                all == str_views(parts@),
                texts(vars@) == distinct(all.take(i as int).filter(path_var_segments())),
            decreases parts.len() - i,
        {
            let part = parts[i];
            let ghost before = texts(vars@);
            let ghost seen = all.take(i as int).filter(path_var_segments());
            proof {
                assert(all.take(i + 1) =~= all.take(i as int).push(part@));
                all.take(i as int).lemma_filter_push(part@, path_var_segments());
            }
            if starts_with(part, ":") && chars_of(part).len() > 1 {
                proof {
                    assert(seen.push(part@).drop_last() =~= seen);
                }
                if !contains_text(&vars, part) {
                    vars.push(String::from_str(part));
                    assert(texts(vars@) =~= before.push(part@));
                }
            }
            i = i + 1;
        }
        assert(all.take(i as int) =~= all);
        vars
    }

    /// Takes the arguments apart: the values that they assign to the path
    /// variables, and the arguments that assign none, in order.
    pub fn process_var_assignments(args: &[String], path_vars: &Vec<String>) -> (r: (
        VarValues,
        Vec<String>,
    ))
        ensures
            r.0@ == assigned(texts(args@), texts(path_vars@)),
            texts(r.1@) == remaining(texts(args@), texts(path_vars@)),
    {
        let ghost all = texts(args@);
        let ghost vars = texts(path_vars@);
        let mut var_values = VarValues::new();
        let mut remaining_args: Vec<String> = Vec::new();
        let mut i: usize = 0;
        proof {
            assert(all.take(0) =~= Seq::<Seq<char>>::empty());
            assert(texts(remaining_args@) =~= Seq::<Seq<char>>::empty());
        }
        while i < args.len()
            invariant
                i <= args.len(),
                all == texts(args@),
                vars == texts(path_vars@),
                var_values@ == assigned(all.take(i as int), vars),
                texts(remaining_args@) == remaining(all.take(i as int), vars),
            decreases args.len() - i,
        {
            let arg = &args[i];
            let ghost before = texts(remaining_args@);
            proof {
                assert(all.take(i + 1).drop_last() =~= all.take(i as int));
                assert(all.take(i + 1).last() == arg@);
            }
            let mut taken = false;
            match split_once(arg.as_str(), '=') {
                Some((var_name, value)) => {
                    if starts_with(var_name, ":") && contains_text(path_vars, var_name) {
                        var_values.insert(String::from_str(var_name), String::from_str(value));
                        taken = true;
                    }
                },
                None => {},
            }
            if !taken {
                remaining_args.push(arg.clone());
                assert(texts(remaining_args@) =~= before.push(arg@));
            }
            i = i + 1;
        }
        assert(all.take(i as int) =~= all);
        (var_values, remaining_args)
    }

    /// Replaces the variables in the URL one after the other, in order,
    /// each one that has a value by its value wherever it occurs.
    pub fn replace_path_vars(url: &str, path_vars: &Vec<String>, var_values: &VarValues) -> (r:
        String)
        ensures
            r@ == replaced(url@, texts(path_vars@), var_values@),
    {
        let ghost vars = texts(path_vars@);
        let mut result = String::from_str(url);
        let mut i: usize = 0;
        assert(vars.take(0) =~= Seq::<Seq<char>>::empty());
        while i < path_vars.len()
            invariant
                i <= path_vars.len(),
                vars == texts(path_vars@),
                result@ == replaced(url@, vars.take(i as int), var_values@),
            decreases path_vars.len() - i,
        {
            let var = &path_vars[i];
            proof {
                assert(vars.take(i + 1).drop_last() =~= vars.take(i as int));
                assert(vars.take(i + 1).last() == var@);
            }
            match var_values.get(var.as_str()) {
                Some(value) => {
                    result = replace(result.as_str(), var.as_str(), value.as_str());
                },
                None => {},
            }
            i = i + 1;
        }
        assert(vars.take(i as int) =~= vars);
        result
    }
}

} // verus!
