//! Conta bancaria: estado de uma conta (titular, numero, saldo, atividade)
//! e as operacoes de deposito, saque, transferencia e desativacao.
//!
//! O saldo e um numero inteiro nao negativo de unidades monetarias.
//! Invariantes: o saldo nunca fica negativo, e uma conta desativada tem
//! saldo zero e nao aceita mais operacoes.

use vstd::prelude::*;

verus! {

/// As falhas possiveis de uma operacao sobre contas, cada uma um caso
/// distinto e identificavel.
#[derive(Clone, Copy, Debug, PartialEq, Eq, Structural)]
pub enum ErroConta {
    /// Deposito, saque ou transferencia com valor que nao e positivo.
    ValorInvalido,
    /// Operacao tentada sobre uma conta desativada.
    ContaInativa,
    /// Saque ou transferencia de valor maior que o saldo atual.
    SaldoInsuficiente,
    /// Desativacao tentada com saldo diferente de zero.
    SaldoNaoZerado,
}

/// A imagem matematica de uma conta: o que os contratos enxergam.
pub struct ContaVista {
    pub titular: Seq<char>,
    pub numero: u32,
    pub saldo: int,
    pub ativa: bool,
}

/// O que vale de toda conta bem formada: saldo nao negativo que cabe na
/// representacao, e conta desativada com saldo zero.
pub open spec fn vista_bem_formada(v: ContaVista) -> bool {
    &&& 0 <= v.saldo <= i64::MAX
    &&& !v.ativa ==> v.saldo == 0
}

/// Uma conta bancaria: titular, numero estavel, saldo em unidades
/// monetarias inteiras e o estado de atividade.
pub struct ContaBancaria {
    titular: String,
    numero: u32,
    saldo: i64,
    ativa: bool,
}

impl View for ContaBancaria {
    type V = ContaVista;

    closed spec fn view(&self) -> ContaVista {
        ContaVista {
            titular: self.titular@,
            numero: self.numero,
            saldo: self.saldo as int,
            ativa: self.ativa,
        }
    }
}

impl ContaBancaria {
    /// Os invariantes locais da conta.
    pub open spec fn bem_formada(&self) -> bool {
        vista_bem_formada(self@)
    }

    /// Abre uma conta ativa com o saldo inicial dado.
    pub fn new(titular: String, numero: u32, saldo_inicial: i64) -> (c: ContaBancaria)
        requires
            saldo_inicial >= 0,
        ensures
            c@ == (ContaVista {
                titular: titular@,
                numero: numero,
                saldo: saldo_inicial as int,
                ativa: true,
            }),
            c.bem_formada(),
    {
        ContaBancaria { titular, numero, saldo: saldo_inicial, ativa: true }
    }

    /// Deposita um valor positivo numa conta ativa; caso contrario devolve
    /// a falha correspondente e nada muda.
    pub fn depositar(&mut self, valor: i64) -> (r: Result<(), ErroConta>)
        requires
            old(self).bem_formada(),
            valor > 0 && old(self)@.ativa ==> old(self)@.saldo + valor <= i64::MAX,
        ensures
            final(self).bem_formada(),
            final(self)@.titular == old(self)@.titular,
            final(self)@.numero == old(self)@.numero,
            final(self)@.ativa == old(self)@.ativa,
            r is Ok <==> valor > 0 && old(self)@.ativa,
            r is Ok ==> final(self)@.saldo == old(self)@.saldo + valor,
            r == Err::<(), ErroConta>(ErroConta::ValorInvalido) <==> valor <= 0,
            r == Err::<(), ErroConta>(ErroConta::ContaInativa) <==> valor > 0 && !old(self)@.ativa,
            r is Err ==> final(self)@ == old(self)@,
    {
        if valor <= 0 {
            Err(ErroConta::ValorInvalido)
        } else if !self.ativa {
            Err(ErroConta::ContaInativa)
        } else {
            self.saldo = self.saldo + valor;
            Ok(())
        }
    }

    /// Saca um valor positivo, ate o saldo atual, de uma conta ativa; caso
    /// contrario devolve a falha correspondente e nada muda.
    pub fn sacar(&mut self, valor: i64) -> (r: Result<(), ErroConta>)
        requires
            old(self).bem_formada(),
        ensures
            final(self).bem_formada(),
            final(self)@.titular == old(self)@.titular,
            final(self)@.numero == old(self)@.numero,
            final(self)@.ativa == old(self)@.ativa,
            r is Ok <==> valor > 0 && old(self)@.ativa && valor <= old(self)@.saldo,
            r is Ok ==> final(self)@.saldo == old(self)@.saldo - valor,
            r == Err::<(), ErroConta>(ErroConta::ValorInvalido) <==> valor <= 0,
            r == Err::<(), ErroConta>(ErroConta::ContaInativa) <==> valor > 0 && !old(self)@.ativa,
            r == Err::<(), ErroConta>(ErroConta::SaldoInsuficiente) <==> valor > 0
                && old(self)@.ativa && valor > old(self)@.saldo,
            r is Err ==> final(self)@ == old(self)@,
    {
        if valor <= 0 {
            Err(ErroConta::ValorInvalido)
        } else if !self.ativa {
            Err(ErroConta::ContaInativa)
        } else if valor > self.saldo {
            Err(ErroConta::SaldoInsuficiente)
        } else {
            self.saldo = self.saldo - valor;
            Ok(())
        }
    }

    /// O saldo atual; leitura pura, nunca falha.
    pub fn obter_saldo(&self) -> (s: i64)
        ensures
            s == self@.saldo,
    {
        self.saldo
    }

    /// Se a conta esta ativa; leitura pura, nunca falha.
    pub fn esta_ativa(&self) -> (b: bool)
        ensures
            b == self@.ativa,
    {
        self.ativa
    }

    /// Transfere um valor desta conta para a conta de destino: um saque
    /// aqui seguido de um deposito la. Se o deposito falhar, o valor sacado
    /// e creditado de volta diretamente (credito de compensacao), de modo
    /// que ou as duas pernas valem ou nenhuma vale.
    pub fn transferir(&mut self, destino: &mut ContaBancaria, valor: i64) -> (r: Result<
        (),
        ErroConta,
    >)
        requires
            old(self).bem_formada(),
            old(destino).bem_formada(),
            valor > 0 && old(self)@.ativa && valor <= old(self)@.saldo && old(destino)@.ativa
                ==> old(destino)@.saldo + valor <= i64::MAX,
        ensures
            final(self).bem_formada(),
            final(destino).bem_formada(),
            final(self)@.titular == old(self)@.titular,
            final(self)@.numero == old(self)@.numero,
            final(self)@.ativa == old(self)@.ativa,
            final(destino)@.titular == old(destino)@.titular,
            final(destino)@.numero == old(destino)@.numero,
            final(destino)@.ativa == old(destino)@.ativa,
            r is Ok <==> valor > 0 && old(self)@.ativa && valor <= old(self)@.saldo
                && old(destino)@.ativa,
            r is Ok ==> final(self)@.saldo == old(self)@.saldo - valor
                && final(destino)@.saldo == old(destino)@.saldo + valor,
            r == Err::<(), ErroConta>(ErroConta::ValorInvalido) <==> valor <= 0,
            r == Err::<(), ErroConta>(ErroConta::SaldoInsuficiente) <==> valor > 0
                && old(self)@.ativa && valor > old(self)@.saldo,
            r == Err::<(), ErroConta>(ErroConta::ContaInativa) <==> valor > 0 && (!old(self)@.ativa || (old(self)@.ativa && valor <= old(self)@.saldo && !old(destino)@.ativa)),
            r is Err ==> final(self)@ == old(self)@ && final(destino)@ == old(destino)@,
    {
        match self.sacar(valor) {
            Err(e) => Err(e),
            Ok(()) => match destino.depositar(valor) {
                Ok(()) => Ok(()),
                Err(e) => {
                    // O saque ja foi validado, entao o credito de volta
                    // restaura exatamente o saldo anterior.
                    self.saldo = self.saldo + valor;
                    Err(e)
                },
            },
        }
    }

    /// Desativa a conta, o que so e permitido com saldo exatamente zero.
    /// A desativacao e terminal: nao existe reativacao.
    pub fn desativar(&mut self) -> (r: Result<(), ErroConta>)
        requires
            old(self).bem_formada(),
        ensures
            final(self).bem_formada(),
            final(self)@.titular == old(self)@.titular,
            final(self)@.numero == old(self)@.numero,
            final(self)@.saldo == old(self)@.saldo,
            r is Ok <==> old(self)@.saldo == 0,
            r is Ok ==> !final(self)@.ativa,
            r is Err ==> final(self)@ == old(self)@
                && r == Err::<(), ErroConta>(ErroConta::SaldoNaoZerado),
    {
        if self.saldo != 0 {
            Err(ErroConta::SaldoNaoZerado)
        } else {
            self.ativa = false;
            Ok(())
        }
    }
}

/// O livro-razao: a colecao, em memoria, de todas as contas, enderecadas
/// pelo numero. E o dono exclusivo dos registros; o numero de cada conta e
/// a sua posicao, atribuido na criacao e estavel (contas nunca sao
/// destruidas). Tambem coordena transferencias entre duas contas por meio
/// de duas mutacoes ordenadas atraves do mapeamento.
pub struct Banco {
    contas: Vec<ContaBancaria>,
}

impl View for Banco {
    type V = Seq<ContaVista>;

    closed spec fn view(&self) -> Seq<ContaVista> {
        self.contas@.map_values(|c: ContaBancaria| c@)
    }
}

impl Banco {
    /// Os invariantes do livro-razao: cada conta e bem formada e carrega
    /// como numero a propria posicao.
    pub open spec fn bem_formado(&self) -> bool {
        forall|i: int|
            0 <= i < self@.len() ==> vista_bem_formada(#[trigger] self@[i]) && self@[i].numero
                == i as u32
    }

    /// Um livro-razao vazio.
    pub fn novo() -> (b: Banco)
        ensures
            b@.len() == 0,
            b.bem_formado(),
    {
        Banco { contas: Vec::new() }
    }

    /// Quantas contas ja foram criadas.
    pub fn quantas(&self) -> (n: usize)
        ensures
            n == self@.len(),
    {
        self.contas.len()
    }

    /// Cria uma conta nova com o titular e o saldo inicial dados e devolve
    /// o numero atribuido; falha com `ValorInvalido` se o saldo inicial for
    /// negativo, sem criar nada.
    pub fn criar(&mut self, titular: String, saldo_inicial: i64) -> (r: Result<u32, ErroConta>)
        requires
            old(self).bem_formado(),
            old(self)@.len() < u32::MAX,
        ensures
            final(self).bem_formado(),
            r is Ok <==> saldo_inicial >= 0,
            r matches Ok(n) ==> n == old(self)@.len() && final(self)@ == old(self)@.push(
                ContaVista {
                    titular: titular@,
                    numero: n,
                    saldo: saldo_inicial as int,
                    ativa: true,
                },
            ),
            r is Err ==> final(self)@ == old(self)@ && r == Err::<u32, ErroConta>(
                ErroConta::ValorInvalido,
            ),
    {
        if saldo_inicial < 0 {
            return Err(ErroConta::ValorInvalido);
        }
        let numero = self.contas.len() as u32;
        let conta = ContaBancaria::new(titular, numero, saldo_inicial);
        self.contas.push(conta);
        proof {
            assert(self@ =~= old(self)@.push(
                ContaVista {
                    titular: titular@,
                    numero: numero,
                    saldo: saldo_inicial as int,
                    ativa: true,
                },
            ));
        }
        Ok(numero)
    }

    /// O saldo da conta de um numero; leitura pura, nunca falha.
    pub fn saldo(&self, numero: u32) -> (s: i64)
        requires
            numero < self@.len(),
        ensures
            s == self@[numero as int].saldo,
    {
        self.contas[numero as usize].obter_saldo()
    }

    /// Se a conta de um numero esta ativa; leitura pura, nunca falha.
    pub fn ativa(&self, numero: u32) -> (b: bool)
        requires
            numero < self@.len(),
        ensures
            b == self@[numero as int].ativa,
    {
        self.contas[numero as usize].esta_ativa()
    }

    /// Deposita na conta de um numero; vale o contrato de
    /// `ContaBancaria::depositar`, e nenhuma outra conta muda.
    pub fn depositar(&mut self, numero: u32, valor: i64) -> (r: Result<(), ErroConta>)
        requires
            old(self).bem_formado(),
            numero < old(self)@.len(),
            valor > 0 && old(self)@[numero as int].ativa ==> old(self)@[numero as int].saldo
                + valor <= i64::MAX,
        ensures
            final(self).bem_formado(),
            final(self)@.len() == old(self)@.len(),
            forall|i: int|
                0 <= i < old(self)@.len() && i != numero as int ==> final(self)@[i] == old(self)@[i],
            final(self)@[numero as int].titular == old(self)@[numero as int].titular,
            final(self)@[numero as int].numero == old(self)@[numero as int].numero,
            final(self)@[numero as int].ativa == old(self)@[numero as int].ativa,
            r is Ok <==> valor > 0 && old(self)@[numero as int].ativa,
            r is Ok ==> final(self)@[numero as int].saldo == old(self)@[numero as int].saldo
                + valor,
            r == Err::<(), ErroConta>(ErroConta::ValorInvalido) <==> valor <= 0,
            r == Err::<(), ErroConta>(ErroConta::ContaInativa) <==> valor > 0 && !old(self)@[numero as int].ativa,
            r is Err ==> final(self)@ == old(self)@,
    {
        proof {
            assert(old(self)@[numero as int] == old(self).contas@[numero as int]@);
            assert(vista_bem_formada(old(self)@[numero as int]));
        }
        let conta = &mut self.contas[numero as usize];
        let r = conta.depositar(valor);
        proof {
            assert(self@ =~= old(self)@.update(numero as int, self@[numero as int]));
            if r is Err {
                assert(self@ =~= old(self)@);
            }
        }
        r
    }

    /// Saca da conta de um numero; vale o contrato de
    /// `ContaBancaria::sacar`, e nenhuma outra conta muda.
    pub fn sacar(&mut self, numero: u32, valor: i64) -> (r: Result<(), ErroConta>)
        requires
            old(self).bem_formado(),
            numero < old(self)@.len(),
        ensures
            final(self).bem_formado(),
            final(self)@.len() == old(self)@.len(),
            forall|i: int|
                0 <= i < old(self)@.len() && i != numero as int ==> final(self)@[i] == old(self)@[i],
            final(self)@[numero as int].titular == old(self)@[numero as int].titular,
            final(self)@[numero as int].numero == old(self)@[numero as int].numero,
            final(self)@[numero as int].ativa == old(self)@[numero as int].ativa,
            r is Ok <==> valor > 0 && old(self)@[numero as int].ativa && valor <= old(self)@[numero as int].saldo,
            r is Ok ==> final(self)@[numero as int].saldo == old(self)@[numero as int].saldo
                - valor,
            r == Err::<(), ErroConta>(ErroConta::ValorInvalido) <==> valor <= 0,
            r == Err::<(), ErroConta>(ErroConta::ContaInativa) <==> valor > 0 && !old(self)@[numero as int].ativa,
            r == Err::<(), ErroConta>(ErroConta::SaldoInsuficiente) <==> valor > 0 && old(self)@[numero as int].ativa && valor > old(self)@[numero as int].saldo,
            r is Err ==> final(self)@ == old(self)@,
    {
        proof {
            assert(old(self)@[numero as int] == old(self).contas@[numero as int]@);
            assert(vista_bem_formada(old(self)@[numero as int]));
        }
        let conta = &mut self.contas[numero as usize];
        let r = conta.sacar(valor);
        proof {
            assert(self@ =~= old(self)@.update(numero as int, self@[numero as int]));
            if r is Err {
                assert(self@ =~= old(self)@);
            }
        }
        r
    }

    /// Desativa a conta de um numero; vale o contrato de
    /// `ContaBancaria::desativar`, e nenhuma outra conta muda.
    pub fn desativar(&mut self, numero: u32) -> (r: Result<(), ErroConta>)
        requires
            old(self).bem_formado(),
            numero < old(self)@.len(),
        ensures
            final(self).bem_formado(),
            final(self)@.len() == old(self)@.len(),
            forall|i: int|
                0 <= i < old(self)@.len() && i != numero as int ==> final(self)@[i] == old(self)@[i],
            final(self)@[numero as int].titular == old(self)@[numero as int].titular,
            final(self)@[numero as int].numero == old(self)@[numero as int].numero,
            final(self)@[numero as int].saldo == old(self)@[numero as int].saldo,
            r is Ok <==> old(self)@[numero as int].saldo == 0,
            r is Ok ==> !final(self)@[numero as int].ativa,
            r is Err ==> final(self)@ == old(self)@ && r == Err::<(), ErroConta>(
                ErroConta::SaldoNaoZerado,
            ),
    {
        proof {
            assert(old(self)@[numero as int] == old(self).contas@[numero as int]@);
            assert(vista_bem_formada(old(self)@[numero as int]));
        }
        let conta = &mut self.contas[numero as usize];
        let r = conta.desativar();
        proof {
            assert(self@ =~= old(self)@.update(numero as int, self@[numero as int]));
            if r is Err {
                assert(self@ =~= old(self)@);
            }
        }
        r
    }

    /// O coordenador de transferencias: saca da conta de origem e deposita
    /// na de destino, em duas mutacoes ordenadas pelo mapeamento. Se o
    /// deposito falhar, o credito de compensacao restaura o saldo de origem
    /// ao valor exato de antes; o estado liquido observavel e "as duas
    /// pernas valem" ou "nenhuma vale".
    pub fn transferir(&mut self, origem: u32, destino: u32, valor: i64) -> (r: Result<
        (),
        ErroConta,
    >)
        requires
            old(self).bem_formado(),
            origem < old(self)@.len(),
            destino < old(self)@.len(),
            valor > 0 && origem != destino && old(self)@[origem as int].ativa && valor <= old(self)@[origem as int].saldo && old(self)@[destino as int].ativa ==> old(self)@[destino as int].saldo + valor <= i64::MAX,
        ensures
            final(self).bem_formado(),
            final(self)@.len() == old(self)@.len(),
            forall|i: int|
                0 <= i < old(self)@.len() && i != origem as int && i != destino as int ==> final(self)@[i] == old(self)@[i],
            final(self)@[origem as int].titular == old(self)@[origem as int].titular,
            final(self)@[origem as int].ativa == old(self)@[origem as int].ativa,
            final(self)@[destino as int].titular == old(self)@[destino as int].titular,
            final(self)@[destino as int].ativa == old(self)@[destino as int].ativa,
            r is Ok <==> valor > 0 && old(self)@[origem as int].ativa && valor <= old(self)@[origem as int].saldo && old(self)@[destino as int].ativa,
            r is Ok && origem != destino ==> final(self)@[origem as int].saldo == old(self)@[origem as int].saldo - valor && final(self)@[destino as int].saldo == old(self)@[destino as int].saldo + valor,
            r is Ok && origem == destino ==> final(self)@ == old(self)@,
            r == Err::<(), ErroConta>(ErroConta::ValorInvalido) <==> valor <= 0,
            r == Err::<(), ErroConta>(ErroConta::SaldoInsuficiente) <==> valor > 0 && old(self)@[origem as int].ativa && valor > old(self)@[origem as int].saldo,
            r == Err::<(), ErroConta>(ErroConta::ContaInativa) <==> valor > 0 && (!old(self)@[origem as int].ativa || (old(self)@[origem as int].ativa && valor <= old(self)@[origem as int].saldo && !old(self)@[destino as int].ativa)),
            r is Err ==> final(self)@ == old(self)@,
    {
        let r = self.sacar(origem, valor);
        match r {
            Err(e) => Err(e),
            Ok(()) => {
                let r2 = self.depositar(destino, valor);
                match r2 {
                    Ok(()) => Ok(()),
                    Err(e) => {
                        // O deposito no destino falhou: credita o valor de
                        // volta na origem, fora do caminho normal de
                        // validacao, restaurando o saldo anterior.
                        proof {
                            assert(self@[origem as int] == self.contas@[origem as int]@);
                            assert(self@[origem as int].saldo == old(self)@[origem as int].saldo
                                - valor);
                        }
                        let conta = &mut self.contas[origem as usize];
                        conta.saldo = conta.saldo + valor;
                        proof {
                            assert(self@ =~= old(self)@);
                        }
                        Err(e)
                    },
                }
            },
        }
    }
}

} // verus!
