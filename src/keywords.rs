use vstd::prelude::*;

use crate::chars::same_chars;
use crate::token::TokenType;

verus! {

/// The reserved word spelled by `w`, if it is one.
pub open spec fn keyword_of(w: Seq<char>) -> Option<TokenType> {
    if w == seq!['a', 'n', 'd'] {
        Some(TokenType::And)
    } else if w == seq!['c', 'l', 'a', 's', 's'] {
        Some(TokenType::Class)
    } else if w == seq!['e', 'l', 's', 'e'] {
        Some(TokenType::Else)
    } else if w == seq!['f', 'a', 'l', 's', 'e'] {
        Some(TokenType::False)
    } else if w == seq!['f', 'o', 'r'] {
        Some(TokenType::For)
    } else if w == seq!['f', 'u', 'n'] {
        Some(TokenType::Fun)
    } else if w == seq!['i', 'f'] {
        Some(TokenType::If)
    } else if w == seq!['n', 'i', 'l'] {
        Some(TokenType::Nil)
    } else if w == seq!['o', 'r'] {
        Some(TokenType::Or)
    } else if w == seq!['p', 'r', 'i', 'n', 't'] {
        Some(TokenType::Print)
    } else if w == seq!['r', 'e', 't', 'u', 'r', 'n'] {
        Some(TokenType::Return)
    } else if w == seq!['s', 'u', 'p', 'e', 'r'] {
        Some(TokenType::Super)
    } else if w == seq!['t', 'h', 'i', 's'] {
        Some(TokenType::This)
    } else if w == seq!['t', 'r', 'u', 'e'] {
        Some(TokenType::True)
    } else if w == seq!['v', 'a', 'r'] {
        Some(TokenType::Var)
    } else if w == seq!['w', 'h', 'i', 'l', 'e'] {
        Some(TokenType::While)
    } else {
        None
    }
}

/// Looks up the characters `v[start..end]` among the reserved words.
pub fn keyword(v: &Vec<char>, start: usize, end: usize) -> (r: Option<TokenType>)
    requires
        start <= end <= v@.len(),
    ensures
        r == keyword_of(v@.subrange(start as int, end as int)),
{
    let w: [char; 3] = ['a', 'n', 'd'];
    assert(w@ =~= seq!['a', 'n', 'd']);
    if same_chars(v, start, end, &w) {
        return Some(TokenType::And);
    }
    let w: [char; 5] = ['c', 'l', 'a', 's', 's'];
    assert(w@ =~= seq!['c', 'l', 'a', 's', 's']);
    if same_chars(v, start, end, &w) {
        return Some(TokenType::Class);
    }
    let w: [char; 4] = ['e', 'l', 's', 'e'];
    assert(w@ =~= seq!['e', 'l', 's', 'e']);
    if same_chars(v, start, end, &w) {
        return Some(TokenType::Else);
    }
    let w: [char; 5] = ['f', 'a', 'l', 's', 'e'];
    assert(w@ =~= seq!['f', 'a', 'l', 's', 'e']);
    if same_chars(v, start, end, &w) {
        return Some(TokenType::False);
    }
    let w: [char; 3] = ['f', 'o', 'r'];
    assert(w@ =~= seq!['f', 'o', 'r']);
    if same_chars(v, start, end, &w) {
        return Some(TokenType::For);
    }
    let w: [char; 3] = ['f', 'u', 'n'];
    assert(w@ =~= seq!['f', 'u', 'n']);
    if same_chars(v, start, end, &w) {
        return Some(TokenType::Fun);
    }
    let w: [char; 2] = ['i', 'f'];
    assert(w@ =~= seq!['i', 'f']);
    if same_chars(v, start, end, &w) {
        return Some(TokenType::If);
    }
    let w: [char; 3] = ['n', 'i', 'l'];
    assert(w@ =~= seq!['n', 'i', 'l']);
    if same_chars(v, start, end, &w) {
        return Some(TokenType::Nil);
    }
    let w: [char; 2] = ['o', 'r'];
    assert(w@ =~= seq!['o', 'r']);
    if same_chars(v, start, end, &w) {
        return Some(TokenType::Or);
    }
    let w: [char; 5] = ['p', 'r', 'i', 'n', 't'];
    assert(w@ =~= seq!['p', 'r', 'i', 'n', 't']);
    if same_chars(v, start, end, &w) {
        return Some(TokenType::Print);
    }
    let w: [char; 6] = ['r', 'e', 't', 'u', 'r', 'n'];
    assert(w@ =~= seq!['r', 'e', 't', 'u', 'r', 'n']);
    if same_chars(v, start, end, &w) {
        return Some(TokenType::Return);
    }
    let w: [char; 5] = ['s', 'u', 'p', 'e', 'r'];
    assert(w@ =~= seq!['s', 'u', 'p', 'e', 'r']);
    if same_chars(v, start, end, &w) {
        return Some(TokenType::Super);
    }
    let w: [char; 4] = ['t', 'h', 'i', 's'];
    assert(w@ =~= seq!['t', 'h', 'i', 's']);
    if same_chars(v, start, end, &w) {
        return Some(TokenType::This);
    }
    let w: [char; 4] = ['t', 'r', 'u', 'e'];
    assert(w@ =~= seq!['t', 'r', 'u', 'e']);
    if same_chars(v, start, end, &w) {
        return Some(TokenType::True);
    }
    let w: [char; 3] = ['v', 'a', 'r'];
    assert(w@ =~= seq!['v', 'a', 'r']);
    if same_chars(v, start, end, &w) {
        return Some(TokenType::Var);
    }
    let w: [char; 5] = ['w', 'h', 'i', 'l', 'e'];
    assert(w@ =~= seq!['w', 'h', 'i', 'l', 'e']);
    if same_chars(v, start, end, &w) {
        return Some(TokenType::While);
    }
    None
}

} // verus!
