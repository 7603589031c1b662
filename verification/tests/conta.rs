use fundamentos::conta::Banco;
use fundamentos::conta::ContaBancaria;
use fundamentos::conta::ErroConta;

#[test]
fn deposito_soma_ao_saldo() {
    let mut conta = ContaBancaria::new("Ana".to_string(), 1, 1000);
    assert_eq!(conta.depositar(500), Ok(()));
    assert_eq!(conta.obter_saldo(), 1500);
}

#[test]
fn deposito_de_valor_nao_positivo_falha_sem_mudar_o_saldo() {
    let mut conta = ContaBancaria::new("Ana".to_string(), 1, 1000);
    assert_eq!(conta.depositar(0), Err(ErroConta::ValorInvalido));
    assert_eq!(conta.depositar(-10), Err(ErroConta::ValorInvalido));
    assert_eq!(conta.obter_saldo(), 1000);
}

#[test]
fn saque_maior_que_o_saldo_falha_sem_mudar_o_saldo() {
    let mut conta = ContaBancaria::new("Ana".to_string(), 1, 500);
    assert_eq!(conta.sacar(600), Err(ErroConta::SaldoInsuficiente));
    assert_eq!(conta.obter_saldo(), 500);
}

#[test]
fn saque_valido_subtrai_do_saldo() {
    let mut conta = ContaBancaria::new("Ana".to_string(), 1, 500);
    assert_eq!(conta.sacar(200), Ok(()));
    assert_eq!(conta.obter_saldo(), 300);
}

#[test]
fn transferencia_valida_move_o_valor() {
    let mut origem = ContaBancaria::new("Ana".to_string(), 1, 1000);
    let mut destino = ContaBancaria::new("Bia".to_string(), 2, 500);
    assert_eq!(origem.transferir(&mut destino, 300), Ok(()));
    assert_eq!(origem.obter_saldo(), 700);
    assert_eq!(destino.obter_saldo(), 800);
}

#[test]
fn transferencia_sem_saldo_nao_toca_o_destino() {
    let mut origem = ContaBancaria::new("Ana".to_string(), 1, 100);
    let mut destino = ContaBancaria::new("Bia".to_string(), 2, 500);
    assert_eq!(origem.transferir(&mut destino, 300), Err(ErroConta::SaldoInsuficiente));
    assert_eq!(origem.obter_saldo(), 100);
    assert_eq!(destino.obter_saldo(), 500);
}

#[test]
fn transferencia_para_conta_inativa_devolve_o_valor_a_origem() {
    let mut origem = ContaBancaria::new("Ana".to_string(), 1, 1000);
    let mut destino = ContaBancaria::new("Bia".to_string(), 2, 0);
    assert_eq!(destino.desativar(), Ok(()));
    assert_eq!(origem.transferir(&mut destino, 100), Err(ErroConta::ContaInativa));
    assert_eq!(origem.obter_saldo(), 1000);
    assert_eq!(destino.obter_saldo(), 0);
}

#[test]
fn desativar_exige_saldo_zero_e_e_terminal() {
    let mut conta = ContaBancaria::new("Ana".to_string(), 1, 300);
    assert_eq!(conta.desativar(), Err(ErroConta::SaldoNaoZerado));
    assert!(conta.esta_ativa());
    assert_eq!(conta.sacar(300), Ok(()));
    assert_eq!(conta.desativar(), Ok(()));
    assert!(!conta.esta_ativa());
    assert_eq!(conta.depositar(100), Err(ErroConta::ContaInativa));
    assert_eq!(conta.sacar(1), Err(ErroConta::ContaInativa));
    assert_eq!(conta.obter_saldo(), 0);
}

#[test]
fn banco_cria_contas_com_numeros_sequenciais() {
    let mut banco = Banco::novo();
    assert_eq!(banco.criar("Ana".to_string(), 1000), Ok(0));
    assert_eq!(banco.criar("Bia".to_string(), 500), Ok(1));
    assert_eq!(banco.quantas(), 2);
    assert_eq!(banco.saldo(0), 1000);
    assert_eq!(banco.saldo(1), 500);
    assert!(banco.ativa(0));
}

#[test]
fn banco_recusa_saldo_inicial_negativo() {
    let mut banco = Banco::novo();
    assert_eq!(banco.criar("Ana".to_string(), -1), Err(ErroConta::ValorInvalido));
    assert_eq!(banco.quantas(), 0);
}

#[test]
fn banco_transfere_entre_contas_pelo_numero() {
    let mut banco = Banco::novo();
    let a = banco.criar("Ana".to_string(), 1000).unwrap();
    let b = banco.criar("Bia".to_string(), 500).unwrap();
    assert_eq!(banco.transferir(a, b, 300), Ok(()));
    assert_eq!(banco.saldo(a), 700);
    assert_eq!(banco.saldo(b), 800);
}

#[test]
fn banco_compensa_transferencia_para_conta_inativa() {
    let mut banco = Banco::novo();
    let a = banco.criar("Ana".to_string(), 1000).unwrap();
    let b = banco.criar("Bia".to_string(), 0).unwrap();
    assert_eq!(banco.desativar(b), Ok(()));
    assert_eq!(banco.transferir(a, b, 100), Err(ErroConta::ContaInativa));
    assert_eq!(banco.saldo(a), 1000);
    assert_eq!(banco.saldo(b), 0);
    assert!(!banco.ativa(b));
}

#[test]
fn banco_recusa_transferencia_sem_saldo_sem_tocar_o_destino() {
    let mut banco = Banco::novo();
    let a = banco.criar("Ana".to_string(), 100).unwrap();
    let b = banco.criar("Bia".to_string(), 500).unwrap();
    assert_eq!(banco.transferir(a, b, 300), Err(ErroConta::SaldoInsuficiente));
    assert_eq!(banco.saldo(a), 100);
    assert_eq!(banco.saldo(b), 500);
}

#[test]
fn banco_recusa_transferencia_de_valor_nao_positivo() {
    let mut banco = Banco::novo();
    let a = banco.criar("Ana".to_string(), 100).unwrap();
    let b = banco.criar("Bia".to_string(), 500).unwrap();
    assert_eq!(banco.transferir(a, b, 0), Err(ErroConta::ValorInvalido));
    assert_eq!(banco.transferir(a, b, -5), Err(ErroConta::ValorInvalido));
    assert_eq!(banco.saldo(a), 100);
    assert_eq!(banco.saldo(b), 500);
}

#[test]
fn saldo_nunca_fica_negativo_numa_sequencia_de_operacoes() {
    let mut banco = Banco::novo();
    let a = banco.criar("Ana".to_string(), 50).unwrap();
    let b = banco.criar("Bia".to_string(), 0).unwrap();
    let _ = banco.depositar(a, 25);
    let _ = banco.sacar(a, 60);
    let _ = banco.transferir(a, b, 10);
    let _ = banco.sacar(b, 100);
    let _ = banco.transferir(b, a, 7);
    assert!(banco.saldo(a) >= 0);
    assert!(banco.saldo(b) >= 0);
    assert_eq!(banco.saldo(a) + banco.saldo(b), 15);
}
