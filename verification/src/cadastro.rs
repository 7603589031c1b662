//! Cadastro de usuarios: o registro com nome capitalizado e email em
//! minusculas, e a validacao simples de email usada no cadastro.

use crate::texto::capitalizado_de;
use crate::texto::capitalizar;
use crate::texto::minusculas;
use crate::texto::minusculas_de;
use crate::validacao::eh_primeiro;
use crate::validacao::tem_char;
use vstd::prelude::*;

verus! {

/// Um usuario cadastrado: nome de exibicao, email e idade.
pub struct Usuario {
    pub nome: String,
    pub email: String,
    pub idade: u32,
}

impl Usuario {
    /// Monta um usuario normalizando os dados: o nome sai capitalizado e o
    /// email sai em minusculas.
    pub fn novo(nome: String, email: String, idade: u32) -> (r: Usuario)
        ensures
            r.nome@ == capitalizado_de(nome@),
            r.email@ == minusculas_de(email@),
            r.idade == idade,
    {
        Usuario { nome: capitalizar(nome.as_str()), email: minusculas(email.as_str()), idade }
    }
}

/// Um email passa na validacao simples quando nao e vazio, tem arroba e
/// ponto, e o primeiro arroba vem antes do primeiro ponto.
pub open spec fn email_simples_valido(s: Seq<char>) -> bool {
    &&& s.len() > 0
    &&& tem_char(s, '@')
    &&& tem_char(s, '.')
    &&& forall|p: int, q: int|
        eh_primeiro(s, '@', p) && eh_primeiro(s, '.', q) ==> p < q
}

/// Validacao simples de email: exige arroba e ponto, com o primeiro arroba
/// antes do primeiro ponto.
pub fn validar_email(email: &str) -> (r: bool)
    ensures
        r == email_simples_valido(email@),
{
    let tamanho = email.unicode_len();
    if tamanho == 0 {
        return false;
    }
    let ghost s = email@;
    let mut pos_arroba: usize = 0;
    let mut tem_arroba: bool = false;
    let mut pos_ponto: usize = 0;
    let mut tem_ponto: bool = false;
    let mut i: usize = 0;
    while i < tamanho
        invariant
            0 <= i <= tamanho,
            tamanho == s.len(),
            s == email@,
            tem_arroba ==> eh_primeiro(s, '@', pos_arroba as int) && pos_arroba < i,
            !tem_arroba ==> forall|k: int| 0 <= k < i ==> s[k] != '@',
            tem_ponto ==> eh_primeiro(s, '.', pos_ponto as int) && pos_ponto < i,
            !tem_ponto ==> forall|k: int| 0 <= k < i ==> s[k] != '.',
        decreases tamanho - i,
    {
        let c = email.get_char(i);
        if c == '@' && !tem_arroba {
            pos_arroba = i;
            tem_arroba = true;
        }
        if c == '.' && !tem_ponto {
            pos_ponto = i;
            tem_ponto = true;
        }
        i = i + 1;
    }
    if !tem_arroba {
        proof {
            assert forall|k: int| 0 <= k < s.len() implies s[k] != '@' by {}
            assert(!tem_char(s, '@'));
        }
        return false;
    }
    if !tem_ponto {
        proof {
            assert(!tem_char(s, '.'));
        }
        return false;
    }
    proof {
        assert(tem_char(s, '@')) by {
            assert(s[pos_arroba as int] == '@');
        }
        assert(tem_char(s, '.')) by {
            assert(s[pos_ponto as int] == '.');
        }
        assert forall|p: int| eh_primeiro(s, '@', p) implies p == pos_arroba as int by {
            if p < pos_arroba as int {
                assert(s[p] == '@');
            } else if p > pos_arroba as int {
                assert(s[pos_arroba as int] != '@');
            }
        }
        assert forall|q: int| eh_primeiro(s, '.', q) implies q == pos_ponto as int by {
            if q < pos_ponto as int {
                assert(s[q] == '.');
            } else if q > pos_ponto as int {
                assert(s[pos_ponto as int] != '.');
            }
        }
    }
    pos_arroba < pos_ponto
}

} // verus!
