//! Historico de operacoes: a lista, em memoria, das descricoes das
//! operacoes ja feitas.

use vstd::prelude::*;

verus! {

/// O historico de operacoes de uma calculadora.
pub struct Historico {
    operacoes: Vec<String>,
}

impl View for Historico {
    type V = Seq<String>;

    closed spec fn view(&self) -> Seq<String> {
        self.operacoes@
    }
}

impl Historico {
    /// Um historico vazio.
    pub fn novo() -> (h: Historico)
        ensures
            h@.len() == 0,
    {
        Historico { operacoes: Vec::new() }
    }

    /// Registra uma operacao no fim do historico.
    pub fn adicionar(&mut self, operacao: String)
        ensures
            final(self)@ == old(self)@.push(operacao),
    {
        self.operacoes.push(operacao);
    }

    /// Esvazia o historico.
    pub fn limpar(&mut self)
        ensures
            final(self)@.len() == 0,
    {
        self.operacoes.clear();
    }

    /// Quantas operacoes o historico guarda.
    pub fn quantidade(&self) -> (n: usize)
        ensures
            n == self@.len(),
    {
        self.operacoes.len()
    }

    /// A operacao registrada na posicao dada.
    pub fn item(&self, i: usize) -> (r: &String)
        requires
            i < self@.len(),
        ensures
            r == self@[i as int],
    {
        &self.operacoes[i]
    }
}

} // verus!
